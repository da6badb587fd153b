//! Requests to send and the replies to them.

use vstd::prelude::*;

verus! {

#[derive(Clone, Copy, Debug, PartialEq, Eq, Structural)]
pub enum Method {
    Get,
    Post,
}

/// The value of a variable of a GraphQL query.
#[derive(Debug)]
pub enum Variable {
    Text(String),
    List(Vec<String>),
}

/// What a request carries.
#[derive(Debug)]
pub enum Body {
    Empty,
    /// A JSON object with the members `query` and `variables`.
    Graphql { query: String, variables: Vec<(String, Variable)> },
    /// The fields of a form, URL-encoded.
    Form(Vec<(String, String)>),
    Text(String),
}

/// A request to send.
#[derive(Debug)]
pub struct HttpRequest {
    pub method: Method,
    pub url: String,
    pub headers: Vec<(String, String)>,
    pub body: Body,
}

/// A reply: its status code, the status as it is shown, and its text.
#[derive(Debug)]
pub struct HttpReply {
    pub status: u16,
    pub status_text: String,
    pub body: String,
}

/// What came of sending a request.
#[derive(Debug)]
pub enum Delivery<T> {
    /// The request was not answered.
    Unsent { cause: String },
    /// The reply could not be read to its end.
    Unread { status: u16, status_text: String, cause: String },
    Read(T),
}

/// A reply, and what its text reads as or why it does not.
#[derive(Debug)]
pub struct Decoded<T> {
    pub reply: HttpReply,
    pub value: Result<T, String>,
}

/// The value of a variable by its characters.
pub enum VariableView {
    Text(Seq<char>),
    List(Seq<Seq<char>>),
}

impl View for Variable {
    type V = VariableView;

    open spec fn view(&self) -> VariableView {
        match self {
            Variable::Text(s) => VariableView::Text(s@),
            Variable::List(list) => VariableView::List(list.deep_view()),
        }
    }
}

/// The characters of a list of pairs of texts.
pub open spec fn pairs_view(pairs: Seq<(String, String)>) -> Seq<(Seq<char>, Seq<char>)> {
    pairs.map_values(|p: (String, String)| (p.0@, p.1@))
}

/// The names and values of a list of variables.
pub open spec fn variables_view(variables: Seq<(String, Variable)>) -> Seq<
    (Seq<char>, VariableView),
> {
    variables.map_values(|v: (String, Variable)| (v.0@, v.1@))
}

/// What a request carries, by its characters.
pub enum BodyView {
    Empty,
    Graphql { query: Seq<char>, variables: Seq<(Seq<char>, VariableView)> },
    Form(Seq<(Seq<char>, Seq<char>)>),
    Text(Seq<char>),
}

impl View for Body {
    type V = BodyView;

    open spec fn view(&self) -> BodyView {
        match self {
            Body::Empty => BodyView::Empty,
            Body::Graphql { query, variables } => BodyView::Graphql {
                query: query@,
                variables: variables_view(variables@),
            },
            Body::Form(fields) => BodyView::Form(pairs_view(fields@)),
            Body::Text(s) => BodyView::Text(s@),
        }
    }
}

/// A request by its characters.
pub struct RequestView {
    pub method: Method,
    pub url: Seq<char>,
    pub headers: Seq<(Seq<char>, Seq<char>)>,
    pub body: BodyView,
}

impl View for HttpRequest {
    type V = RequestView;

    open spec fn view(&self) -> RequestView {
        RequestView {
            method: self.method,
            url: self.url@,
            headers: pairs_view(self.headers@),
            body: self.body@,
        }
    }
}

/// The status codes of success are those from 200 to 299.
pub open spec fn is_success_code(status: u16) -> bool {
    200 <= status < 300
}

pub fn is_success(status: u16) -> (r: bool)
    ensures
        r == is_success_code(status),
{
    200 <= status && status < 300
}

/// A text that the value of a header can hold: no control character but the tab.
pub open spec fn is_header_text(s: Seq<char>) -> bool {
    forall|i: int|
        0 <= i < s.len() ==> (' ' <= #[trigger] s[i] || s[i] == '\t') && s[i] != '\u{7F}'
}

/// `reqwest::header::HeaderValue::from_str`: accepts exactly the texts of which each byte of the
/// UTF-8 encoding is a tab, or at least 32 and not 127. The error has one message.
#[verifier::external_body]
pub(crate) fn check_header_value(value: &str) -> (r: Result<(), String>)
    ensures
        match r {
            Ok(()) => is_header_text(value@),
            Err(cause) => !is_header_text(value@) && cause@ == "failed to parse header value"@,
        },
{
    reqwest::header::HeaderValue::from_str(value).map(|_| ()).map_err(|e| e.to_string())
}

/// Adds a pair of texts to a list.
pub fn add_pair(pairs: &mut Vec<(String, String)>, key: &str, value: String)
    ensures
        pairs_view(final(pairs)@) == pairs_view(old(pairs)@).push((key@, value@)),
{
    pairs.push((key.to_owned(), value));
    proof {
        assert(pairs_view(pairs@) == pairs_view(old(pairs)@).push((key@, value@)));
    }
}

/// Adds a variable to a list.
pub fn add_variable(variables: &mut Vec<(String, Variable)>, name: &str, value: Variable)
    ensures
        variables_view(final(variables)@) == variables_view(old(variables)@).push((name@, value@)),
{
    variables.push((name.to_owned(), value));
    proof {
        assert(variables_view(variables@) == variables_view(old(variables)@).push((name@, value@)));
    }
}

} // verus!
