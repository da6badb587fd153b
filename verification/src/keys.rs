//! Keys that keep an invoice from being submitted twice.

use vstd::prelude::*;

verus! {

/// A digit of a number written in base 16.
pub open spec fn is_hex_digit(c: char) -> bool {
    '0' <= c <= '9' || 'a' <= c <= 'f'
}

/// A place of a UUID's text that holds a hyphen.
pub open spec fn is_hyphen_place(i: int) -> bool {
    i == 8 || i == 13 || i == 18 || i == 23
}

/// The text of a random UUID: groups of 8, 4, 4, 4 and 12 digits in base 16, with the digit 4 for
/// the version and one of 8, 9, a and b for the variant.
pub open spec fn is_uuid_text(s: Seq<char>) -> bool {
    &&& s.len() == 36
    &&& forall|i: int|
        0 <= i < 36 ==> if is_hyphen_place(i) {
            #[trigger] s[i] == '-'
        } else {
            is_hex_digit(s[i])
        }
    &&& s[14] == '4'
    &&& s[19] == '8' || s[19] == '9' || s[19] == 'a' || s[19] == 'b'
}

/// `uuid::Uuid::new_v4`, as its `Display` writes it: the text of a random UUID. Nothing more is
/// said of which one.
#[verifier::external_body]
fn new_uuid() -> (r: String)
    ensures
        is_uuid_text(r@),
{
    uuid::Uuid::new_v4().to_string()
}

/// The key made of a prefix and a unique text.
pub open spec fn key_text(prefix: Seq<char>, id: Seq<char>) -> Seq<char> {
    prefix + "-"@ + id
}

/// The key made of a prefix and a unique text.
pub fn idempotency_key(prefix: &str, id: &str) -> (r: String)
    ensures
        r@ == key_text(prefix@, id@),
{
    prefix.to_owned().concat("-").concat(id)
}

/// The text is an outcome of a call of `new_uuid`. That it has the form of a UUID does not show
/// this: only making the call does.
pub closed spec fn is_drawn(id: Seq<char>) -> bool {
    exists|drawn: String| #[trigger] call_ensures(new_uuid, (), drawn) && drawn@ == id
}

/// What was drawn came out of a call of `new_uuid`, and is the text of a random UUID.
proof fn drawn_ids_come_from_the_generator(id: Seq<char>)
    requires
        is_drawn(id),
    ensures
        exists|drawn: String| #[trigger] call_ensures(new_uuid, (), drawn) && drawn@ == id,
        is_uuid_text(id),
{
}

fn draw<F: Fn() -> String>(source: F) -> (r: String)
    requires
        call_requires(source, ()),
    ensures
        call_ensures(source, (), r),
{
    source()
}

/// A new key with a prefix: its unique text is drawn in this call.
pub fn new_idempotency_key(prefix: &str) -> (r: String)
    ensures
        exists|id: Seq<char>|
            is_uuid_text(id) && is_drawn(id) && r@ == #[trigger] key_text(prefix@, id),
{
    let id = draw(new_uuid);
    proof {
        drawn_ids_come_from_the_generator(id@);
    }
    idempotency_key(prefix, id.as_str())
}

/// A key begins with its prefix, and keys of one prefix are equal only where their unique texts
/// are.
pub proof fn keys_are_told_apart(prefix: Seq<char>, a: Seq<char>, b: Seq<char>)
    ensures
        prefix.is_prefix_of(key_text(prefix, a)),
        key_text(prefix, a) == key_text(prefix, b) ==> a == b,
{
    let head = prefix + "-"@;
    assert(key_text(prefix, a).take(prefix.len() as int) == prefix);
    assert(key_text(prefix, a).skip(head.len() as int) == a);
    assert(key_text(prefix, b).skip(head.len() as int) == b);
}

} // verus!
