//! What went wrong, as the chain of messages that a report shows.

use vstd::prelude::*;

use crate::text;

verus! {

/// A failure: what was attempted first, its innermost cause last.
#[derive(Debug)]
pub struct Failure {
    pub chain: Vec<String>,
}

impl View for Failure {
    type V = Seq<Seq<char>>;

    open spec fn view(&self) -> Seq<Seq<char>> {
        self.chain.deep_view()
    }
}

impl Failure {
    /// A failure without a further cause.
    pub fn new(message: String) -> (r: Failure)
        ensures
            r@ == seq![message@],
    {
        let mut chain: Vec<String> = Vec::new();
        chain.push(message);
        let r = Failure { chain };
        proof {
            assert(r@ == seq![message@]);
        }
        r
    }

    /// A failure with its cause.
    pub fn caused(message: String, cause: String) -> (r: Failure)
        ensures
            r@ == seq![message@, cause@],
    {
        let mut chain: Vec<String> = Vec::new();
        chain.push(message);
        chain.push(cause);
        let r = Failure { chain };
        proof {
            assert(r@ == seq![message@, cause@]);
        }
        r
    }

    /// The same failure seen from the attempt that it made fail.
    pub fn within(self, context: &str) -> (r: Failure)
        ensures
            r@ == seq![context@] + self@,
    {
        let mut chain = self.chain;
        chain.insert(0, context.to_owned());
        let r = Failure { chain };
        proof {
            assert(r@ == seq![context@] + self@);
        }
        r
    }

    /// The messages of the chain on one line.
    pub fn to_string(&self) -> (r: String)
        ensures
            r@ == text::joined(self@, ": "@),
    {
        text::join(&self.chain, ": ")
    }
}

} // verus!
