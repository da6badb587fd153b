//! The invoice as an XML document, and values looked up in an XML text.

use quick_xml::events::BytesDecl;
use quick_xml::events::BytesEnd;
use quick_xml::events::BytesStart;
use quick_xml::events::BytesText;
use quick_xml::events::Event;
use vstd::prelude::*;
use vstd::utf8;

use crate::calendar;
use crate::failure::Failure;
use crate::models;
use crate::models::Invoice;
use crate::models::InvoiceItem;
use crate::models::Money;
use crate::models::Party;
use crate::readback;
use crate::text;

verus! {

/// A character as it stands in the text between two tags.
pub open spec fn escaped_char(c: char) -> Seq<char> {
    if c == '<' {
        "&lt;"@
    } else if c == '>' {
        "&gt;"@
    } else if c == '&' {
        "&amp;"@
    } else if c == '\'' {
        "&apos;"@
    } else if c == '"' {
        "&quot;"@
    } else if c == '\r' {
        "&#13;"@
    } else {
        seq![c]
    }
}

/// A character as it stands in the value of an attribute.
pub open spec fn escaped_value_char(c: char) -> Seq<char> {
    if c == '\n' {
        "&#10;"@
    } else if c == '\t' {
        "&#9;"@
    } else {
        escaped_char(c)
    }
}

/// A character as it stands in the value of an attribute, or else between two tags.
pub open spec fn spelled_char(c: char, in_attribute: bool) -> Seq<char> {
    if in_attribute {
        escaped_value_char(c)
    } else {
        escaped_char(c)
    }
}

/// A text as it stands in the value of an attribute, or else between two tags.
pub open spec fn spelled(s: Seq<char>, in_attribute: bool) -> Seq<char>
    decreases s.len(),
{
    if s.len() == 0 {
        Seq::empty()
    } else {
        spelled(s.drop_last(), in_attribute) + spelled_char(s.last(), in_attribute)
    }
}

/// A text as it stands between two tags.
pub open spec fn escaped(s: Seq<char>) -> Seq<char> {
    spelled(s, false)
}

/// A text as it stands in the value of an attribute.
pub open spec fn escaped_value(s: Seq<char>) -> Seq<char> {
    spelled(s, true)
}

/// The attributes of a tag, by key and value.
pub open spec fn attributes_text(attributes: Seq<(Seq<char>, Seq<char>)>) -> Seq<char>
    decreases attributes.len(),
{
    if attributes.len() == 0 {
        Seq::empty()
    } else {
        attributes_text(attributes.drop_last()) + " "@ + attributes.last().0 + "=\""@
            + escaped_value(attributes.last().1) + "\""@
    }
}

/// The keys and values of a list of attributes.
pub open spec fn attributes_view(attributes: Seq<(&str, &str)>) -> Seq<(Seq<char>, Seq<char>)> {
    attributes.map_values(|a: (&str, &str)| (a.0@, a.1@))
}

/// The tag that opens an element.
pub open spec fn start_tag(
    name: Seq<char>,
    attributes: Seq<(Seq<char>, Seq<char>)>,
) -> Seq<char> {
    "<"@ + name + attributes_text(attributes) + ">"@
}

/// The tag that closes an element.
pub open spec fn end_tag(name: Seq<char>) -> Seq<char> {
    "</"@ + name + ">"@
}

/// A new line that starts with that many spaces.
pub open spec fn margin(spaces: nat) -> Seq<char> {
    seq!['\n'] + Seq::new(spaces, |i: int| ' ')
}

/// What stands before a tag, by the number of spaces and by whether the tag starts a new line.
pub open spec fn lead(layout: (nat, bool)) -> Seq<char> {
    if layout.1 {
        margin(layout.0)
    } else {
        Seq::empty()
    }
}

/// The layout inside a tag that has been opened.
pub open spec fn indented(layout: (nat, bool)) -> (nat, bool) {
    (layout.0 + 2, true)
}

/// The layout of the tag that closes another.
pub open spec fn unindented(layout: (nat, bool)) -> (nat, bool) {
    (
        if layout.0 >= 2 {
            (layout.0 - 2) as nat
        } else {
            0
        },
        layout.1,
    )
}

/// The XML writer of the crate `quick_xml`.
#[verifier::external_type_specification]
#[verifier::external_body]
#[verifier::reject_recursive_types(W)]
pub struct ExWriter<W>(quick_xml::Writer<W>);

/// The bytes that a writer has written.
pub uninterp spec fn written(writer: quick_xml::Writer<Vec<u8>>) -> Seq<u8>;

/// The layout of a writer that indents by two spaces for each level: the number of spaces before
/// its next tag, and whether that tag starts a new line. Another writer has none.
pub uninterp spec fn layout_of(writer: quick_xml::Writer<Vec<u8>>) -> Option<(nat, bool)>;

/// The layout of a writer that indents by two spaces for each level.
pub open spec fn layout(writer: quick_xml::Writer<Vec<u8>>) -> (nat, bool) {
    layout_of(writer)->0
}

/// `quick_xml::Writer::new_with_indent` on an empty vector, with two spaces for each level.
#[verifier::external_body]
fn new_writer() -> (r: quick_xml::Writer<Vec<u8>>)
    ensures
        written(r) == Seq::<u8>::empty(),
        layout_of(r) == Some((0nat, false)),
{
    quick_xml::Writer::new_with_indent(Vec::new(), b' ', 2)
}

/// `quick_xml::Writer::write_event` with the declaration of version 1.0 in UTF-8: on a new line
/// where the layout says so, `<?`, what `BytesDecl::new` holds, and `?>`. Writing into a vector
/// does not fail.
#[verifier::external_body]
fn write_declaration(writer: &mut quick_xml::Writer<Vec<u8>>) -> (r: Result<(), String>)
    requires
        layout_of(*old(writer)) is Some,
    ensures
        r is Ok,
        written(*final(writer)) == written(*old(writer)) + utf8::encode_utf8(
            lead(layout(*old(writer))) + "<?xml version=\"1.0\" encoding=\"UTF-8\"?>"@,
        ),
        layout_of(*final(writer)) == Some((layout(*old(writer)).0, true)),
{
    let declaration = BytesDecl::new("1.0", Some("UTF-8"), None);
    writer.write_event(Event::Decl(declaration)).map_err(|e| e.to_string())
}

/// `quick_xml::Writer::write_event` with the tag that opens an element: on a new line where the
/// layout says so, `<`, the name, the attributes that `BytesStart::extend_attributes` adds, each
/// with its value escaped, and `>`. What follows is indented. Writing into a vector does not fail.
#[verifier::external_body]
fn write_start(
    writer: &mut quick_xml::Writer<Vec<u8>>,
    name: &str,
    attributes: &[(&str, &str)],
) -> (r: Result<(), String>)
    requires
        layout_of(*old(writer)) is Some,
    ensures
        r is Ok,
        written(*final(writer)) == written(*old(writer)) + utf8::encode_utf8(
            lead(layout(*old(writer))) + start_tag(name@, attributes_view(attributes@)),
        ),
        layout_of(*final(writer)) == Some(indented(layout(*old(writer)))),
{
    let mut tag = BytesStart::new(name);
    tag.extend_attributes(attributes.iter().copied());
    writer.write_event(Event::Start(tag)).map_err(|e| e.to_string())
}

/// `quick_xml::Writer::write_event` with the text that `BytesText::new` escapes; the tag after it
/// stands on the same line. Writing into a vector does not fail.
#[verifier::external_body]
fn write_text(writer: &mut quick_xml::Writer<Vec<u8>>, content: &str) -> (r: Result<(), String>)
    requires
        layout_of(*old(writer)) is Some,
    ensures
        r is Ok,
        written(*final(writer)) == written(*old(writer)) + utf8::encode_utf8(escaped(content@)),
        layout_of(*final(writer)) == Some((layout(*old(writer)).0, false)),
{
    writer.write_event(Event::Text(BytesText::new(content))).map_err(|e| e.to_string())
}

/// `quick_xml::Writer::write_event` with the tag that closes an element: indented no longer, on a
/// new line where the layout says so, `</`, the name and `>`. Writing into a vector does not fail.
#[verifier::external_body]
fn write_end(writer: &mut quick_xml::Writer<Vec<u8>>, name: &str) -> (r: Result<(), String>)
    requires
        layout_of(*old(writer)) is Some,
    ensures
        r is Ok,
        written(*final(writer)) == written(*old(writer)) + utf8::encode_utf8(
            lead(unindented(layout(*old(writer)))) + end_tag(name@),
        ),
        layout_of(*final(writer)) == Some((unindented(layout(*old(writer))).0, true)),
{
    writer.write_event(Event::End(BytesEnd::new(name))).map_err(|e| e.to_string())
}

/// `quick_xml::Writer::into_inner`: the bytes written.
#[verifier::external_body]
fn into_bytes(writer: quick_xml::Writer<Vec<u8>>) -> (r: Vec<u8>)
    ensures
        r@ == written(writer),
{
    writer.into_inner()
}

/// `String::from_utf8`: the text of which the bytes are the UTF-8 encoding, or an error where
/// there is none.
#[verifier::external_body]
fn from_utf8(bytes: Vec<u8>) -> (r: Result<String, String>)
    ensures
        match r {
            Ok(s) => utf8::valid_utf8(bytes@) && utf8::encode_utf8(s@) == bytes@,
            Err(_) => !utf8::valid_utf8(bytes@),
        },
{
    String::from_utf8(bytes).map_err(|e| e.to_string())
}

/// The encoding of two texts one after the other is that of the one and then that of the other.
proof fn lemma_encode_concat(a: Seq<char>, b: Seq<char>)
    ensures
        utf8::encode_utf8(a + b) == utf8::encode_utf8(a) + utf8::encode_utf8(b),
    decreases a.len(),
{
    if a.len() == 0 {
        assert(a + b == b);
    } else {
        assert((a + b).drop_first() == a.drop_first() + b);
        lemma_encode_concat(a.drop_first(), b);
    }
}

/// Three texts one after the other, whichever two are put together first.
pub proof fn lemma_associative(a: Seq<char>, b: Seq<char>, c: Seq<char>)
    ensures
        a + b + c == a + (b + c),
{
    assert(a + b + c == a + (b + c));
}

/// A document in the making: the writer and the text that it has written.
struct Document {
    writer: quick_xml::Writer<Vec<u8>>,
    text: Ghost<Seq<char>>,
}

impl Document {
    spec fn well_formed(&self) -> bool {
        &&& written(self.writer) == utf8::encode_utf8(self.text@)
        &&& layout_of(self.writer) is Some
    }

    spec fn layout(&self) -> (nat, bool) {
        layout(self.writer)
    }

    /// The document with more text, at another layout.
    spec fn extends(&self, before: &Document, more: Seq<char>, layout: (nat, bool)) -> bool {
        &&& self.well_formed()
        &&& self.text@ == before.text@ + more
        &&& self.layout() == layout
    }

    fn new() -> (r: Document)
        ensures
            r.well_formed(),
            r.text@ == Seq::<char>::empty(),
            r.layout() == (0nat, false),
    {
        Document { writer: new_writer(), text: Ghost(Seq::empty()) }
    }

    fn declare(&mut self) -> (r: Result<(), Failure>)
        requires
            old(self).well_formed(),
        ensures
            r is Ok,
            final(self).extends(
                old(self),
                lead(old(self).layout()) + "<?xml version=\"1.0\" encoding=\"UTF-8\"?>"@,
                (old(self).layout().0, true),
            ),
    {
        let ghost more = lead(self.layout()) + "<?xml version=\"1.0\" encoding=\"UTF-8\"?>"@;
        proof {
            lemma_encode_concat(self.text@, more);
        }
        match write_declaration(&mut self.writer) {
            Ok(()) => {
                self.text = Ghost(self.text@ + more);
                Ok(())
            },
            Err(cause) => Err(Failure::new(cause)),
        }
    }

    fn open(&mut self, name: &str, attributes: &[(&str, &str)]) -> (r: Result<(), Failure>)
        requires
            old(self).well_formed(),
        ensures
            r is Ok,
            final(self).extends(
                old(self),
                lead(old(self).layout()) + start_tag(name@, attributes_view(attributes@)),
                indented(old(self).layout()),
            ),
    {
        let ghost more = lead(self.layout()) + start_tag(name@, attributes_view(attributes@));
        proof {
            lemma_encode_concat(self.text@, more);
        }
        match write_start(&mut self.writer, name, attributes) {
            Ok(()) => {
                self.text = Ghost(self.text@ + more);
                Ok(())
            },
            Err(cause) => Err(Failure::new(cause)),
        }
    }

    fn content(&mut self, content: &str) -> (r: Result<(), Failure>)
        requires
            old(self).well_formed(),
        ensures
            r is Ok,
            final(self).extends(old(self), escaped(content@), (old(self).layout().0, false)),
    {
        proof {
            lemma_encode_concat(self.text@, escaped(content@));
        }
        match write_text(&mut self.writer, content) {
            Ok(()) => {
                self.text = Ghost(self.text@ + escaped(content@));
                Ok(())
            },
            Err(cause) => Err(Failure::new(cause)),
        }
    }

    fn close(&mut self, name: &str) -> (r: Result<(), Failure>)
        requires
            old(self).well_formed(),
        ensures
            r is Ok,
            final(self).extends(
                old(self),
                lead(unindented(old(self).layout())) + end_tag(name@),
                (unindented(old(self).layout()).0, true),
            ),
    {
        let ghost more = lead(unindented(self.layout())) + end_tag(name@);
        proof {
            lemma_encode_concat(self.text@, more);
        }
        match write_end(&mut self.writer, name) {
            Ok(()) => {
                self.text = Ghost(self.text@ + more);
                Ok(())
            },
            Err(cause) => Err(Failure::new(cause)),
        }
    }

    fn finish(self) -> (r: Result<String, Failure>)
        requires
            self.well_formed(),
        ensures
            r is Ok,
            r->Ok_0@ == self.text@,
    {
        let ghost content = self.text@;
        let bytes = into_bytes(self.writer);
        proof {
            utf8::encode_utf8_valid_utf8(content);
        }
        match from_utf8(bytes) {
            Ok(s) => {
                proof {
                    utf8::encode_utf8_decode_utf8(content);
                    utf8::encode_utf8_decode_utf8(s@);
                }
                Ok(s)
            },
            Err(cause) => Err(Failure::caused("generated XML was not UTF-8".to_owned(), cause)),
        }
    }
}

/// The tag that opens an element without attributes, on a new line.
pub open spec fn opening(spaces: nat, name: Seq<char>) -> Seq<char> {
    margin(spaces) + start_tag(name, Seq::empty())
}

/// The tag that closes an element, on a new line.
pub open spec fn closing(spaces: nat, name: Seq<char>) -> Seq<char> {
    margin(spaces) + end_tag(name)
}

/// An element that holds a text, on a new line.
pub open spec fn text_element(spaces: nat, name: Seq<char>, value: Seq<char>) -> Seq<char> {
    opening(spaces, name) + escaped(value) + end_tag(name)
}

/// An element that holds a text, where there is one.
pub open spec fn optional_element(
    spaces: nat,
    name: Seq<char>,
    value: Option<String>,
) -> Seq<char> {
    match value {
        Some(s) => text_element(spaces, name, s@),
        None => Seq::empty(),
    }
}

/// An element for a party.
pub open spec fn party_element(spaces: nat, name: Seq<char>, party: Party) -> Seq<char> {
    opening(spaces, name) + text_element(spaces + 2, "name"@, party.name@) + text_element(
        spaces + 2,
        "address"@,
        party.address@,
    ) + text_element(spaces + 2, "email"@, party.email@) + closing(spaces, name)
}

/// The attribute that names the currency of an amount, where it is not the default one.
pub open spec fn currency_attribute(money: Money, default_currency: Seq<char>) -> Seq<
    (Seq<char>, Seq<char>),
> {
    if money.currency@ == default_currency {
        Seq::empty()
    } else {
        seq![("currency"@, money.currency@)]
    }
}

/// An element for an amount.
pub open spec fn money_element(
    spaces: nat,
    name: Seq<char>,
    money: Money,
    default_currency: Seq<char>,
) -> Seq<char> {
    margin(spaces) + start_tag(name, currency_attribute(money, default_currency)) + escaped(
        money.value@.text,
    ) + end_tag(name)
}

/// The elements for the tags of an item.
pub open spec fn tag_elements(spaces: nat, tags: Seq<String>) -> Seq<char>
    decreases tags.len(),
{
    if tags.len() == 0 {
        Seq::empty()
    } else {
        tag_elements(spaces, tags.drop_last()) + text_element(spaces, "tag"@, tags.last()@)
    }
}

/// An element for the credit of an item, where there is one.
pub open spec fn credit_element(
    spaces: nat,
    credit: Option<Money>,
    default_currency: Seq<char>,
) -> Seq<char> {
    match credit {
        Some(money) => money_element(spaces, "credit"@, money, default_currency),
        None => Seq::empty(),
    }
}

/// An element for an item.
pub open spec fn item_element(
    spaces: nat,
    item: InvoiceItem,
    default_currency: Seq<char>,
) -> Seq<char> {
    opening(spaces, "item"@) + text_element(
        spaces + 2,
        "date"@,
        calendar::date_text(item.date@),
    ) + text_element(spaces + 2, "summary"@, item.summary@) + optional_element(
        spaces + 2,
        "details"@,
        item.details,
    ) + optional_element(spaces + 2, "link"@, item.link) + tag_elements(spaces + 2, item.tags@)
        + money_element(spaces + 2, "debit"@, item.debit, default_currency) + credit_element(
        spaces + 2,
        item.credit,
        default_currency,
    ) + closing(spaces, "item"@)
}

/// The elements for a list of items.
pub open spec fn item_elements(
    spaces: nat,
    items: Seq<InvoiceItem>,
    default_currency: Seq<char>,
) -> Seq<char>
    decreases items.len(),
{
    if items.len() == 0 {
        Seq::empty()
    } else {
        item_elements(spaces, items.drop_last(), default_currency) + item_element(
            spaces,
            items.last(),
            default_currency,
        )
    }
}

/// The attributes of the element for an invoice.
pub open spec fn root_attributes(currency: Seq<char>) -> Seq<(Seq<char>, Seq<char>)> {
    seq![
        ("xmlns:xsi"@, "http://www.w3.org/2001/XMLSchema-instance"@),
        ("xmlns"@, "https://hpkns.uk/accounting"@),
        ("defaultCurrency"@, currency),
    ]
}

/// The declaration and the tag that opens the element for an invoice.
pub open spec fn document_head(invoice: Invoice) -> Seq<char> {
    "<?xml version=\"1.0\" encoding=\"UTF-8\"?>"@ + margin(0) + start_tag(
        "invoice"@,
        root_attributes(invoice.currency@),
    )
}

/// The document for an invoice.
pub open spec fn document(invoice: Invoice) -> Seq<char> {
    document_head(invoice) + text_element(
        2,
        "paymentDueBy"@,
        calendar::date_text(invoice.payment_due_by@),
    ) + opening(2, "parties"@) + party_element(4, "us"@, invoice.supplier) + party_element(
        4,
        "them"@,
        invoice.customer,
    ) + closing(2, "parties"@) + opening(2, "items"@) + item_elements(
        4,
        invoice.items@,
        invoice.currency@,
    ) + closing(2, "items"@) + optional_element(2, "notes"@, invoice.notes) + closing(
        0,
        "invoice"@,
    )
}

impl Document {
    /// The document may go on with a tag on a new line after that many spaces.
    spec fn is_at(&self, spaces: nat) -> bool {
        self.well_formed() && self.layout() == (spaces, true)
    }

    /// The document goes on with more text, and then with a tag on a new line after that many
    /// spaces.
    spec fn goes_on(&self, before: &Document, more: Seq<char>, spaces: nat) -> bool {
        self.is_at(spaces) && self.text@ == before.text@ + more
    }
}

/// An opening tag without attributes.
fn write_opening(doc: &mut Document, name: &str, Ghost(spaces): Ghost<nat>) -> (r: Result<
    (),
    Failure,
>)
    requires
        old(doc).is_at(spaces),
    ensures
        r is Ok,
        final(doc).goes_on(old(doc), opening(spaces, name@), spaces + 2),
{
    proof {
        let none: Seq<(&str, &str)> = Seq::empty();
        assert(attributes_view(none) == Seq::<(Seq<char>, Seq<char>)>::empty());
    }
    doc.open(name, &[])
}

/// An element that holds a text.
fn write_text_element(
    doc: &mut Document,
    name: &str,
    value: &str,
    Ghost(spaces): Ghost<nat>,
) -> (r: Result<(), Failure>)
    requires
        old(doc).is_at(spaces),
    ensures
        r is Ok,
        final(doc).goes_on(old(doc), text_element(spaces, name@, value@), spaces),
{
    let ghost before = doc.text@;
    write_opening(doc, name, Ghost(spaces))?;
    doc.content(value)?;
    doc.close(name)?;
    proof {
        assert(lead((spaces, false)) + end_tag(name@) == end_tag(name@));
        lemma_associative(before, opening(spaces, name@), escaped(value@));
        lemma_associative(before, opening(spaces, name@) + escaped(value@), end_tag(name@));
    }
    Ok(())
}

/// An element that holds a text, where there is one.
fn write_optional_element(
    doc: &mut Document,
    name: &str,
    value: &Option<String>,
    Ghost(spaces): Ghost<nat>,
) -> (r: Result<(), Failure>)
    requires
        old(doc).is_at(spaces),
    ensures
        r is Ok,
        final(doc).goes_on(old(doc), optional_element(spaces, name@, *value), spaces),
{
    match value {
        Some(s) => write_text_element(doc, name, s.as_str(), Ghost(spaces)),
        None => {
            proof {
                assert(doc.text@ + Seq::<char>::empty() == doc.text@);
            }
            Ok(())
        },
    }
}

/// An element for a party.
fn write_party(
    doc: &mut Document,
    node_name: &str,
    party: &Party,
    Ghost(spaces): Ghost<nat>,
) -> (r: Result<(), Failure>)
    requires
        old(doc).is_at(spaces),
    ensures
        r is Ok,
        final(doc).goes_on(old(doc), party_element(spaces, node_name@, *party), spaces),
{
    let ghost before = doc.text@;
    let ghost mut more = opening(spaces, node_name@);
    write_opening(doc, node_name, Ghost(spaces))?;
    write_text_element(doc, "name", party.name.as_str(), Ghost(spaces + 2))?;
    proof {
        let element = text_element(spaces + 2, "name"@, party.name@);
        lemma_associative(before, more, element);
        more = more + element;
    }
    write_text_element(doc, "address", party.address.as_str(), Ghost(spaces + 2))?;
    proof {
        let element = text_element(spaces + 2, "address"@, party.address@);
        lemma_associative(before, more, element);
        more = more + element;
    }
    write_text_element(doc, "email", party.email.as_str(), Ghost(spaces + 2))?;
    proof {
        let element = text_element(spaces + 2, "email"@, party.email@);
        lemma_associative(before, more, element);
        more = more + element;
    }
    doc.close(node_name)?;
    proof {
        lemma_associative(before, more, closing(spaces, node_name@));
    }
    Ok(())
}

/// An element for an amount.
fn write_money_element(
    doc: &mut Document,
    name: &str,
    money: &Money,
    default_currency: &str,
    Ghost(spaces): Ghost<nat>,
) -> (r: Result<(), Failure>)
    requires
        old(doc).is_at(spaces),
    ensures
        r is Ok,
        final(doc).goes_on(
            old(doc),
            money_element(spaces, name@, *money, default_currency@),
            spaces,
        ),
        models::is_amount_text(money.value@.text),
{
    let ghost before = doc.text@;
    let ghost attributes = currency_attribute(*money, default_currency@);
    let ghost start = margin(spaces) + start_tag(name@, attributes);
    if text::same_text(money.currency.as_str(), default_currency) {
        write_opening(doc, name, Ghost(spaces))?;
    } else {
        let list = [("currency", money.currency.as_str())];
        proof {
            assert(attributes_view(list@) == attributes);
        }
        doc.open(name, &list)?;
    }
    doc.content(money.value.text())?;
    doc.close(name)?;
    proof {
        let content = escaped(money.value@.text);
        assert(lead((spaces, false)) + end_tag(name@) == end_tag(name@));
        lemma_associative(before, start, content);
        lemma_associative(before, start + content, end_tag(name@));
    }
    Ok(())
}

/// The elements for the tags of an item.
fn write_tags(doc: &mut Document, tags: &Vec<String>, Ghost(spaces): Ghost<nat>) -> (r: Result<
    (),
    Failure,
>)
    requires
        old(doc).is_at(spaces),
    ensures
        r is Ok,
        final(doc).goes_on(old(doc), tag_elements(spaces, tags@), spaces),
{
    let ghost before = doc.text@;
    let mut i: usize = 0;
    proof {
        assert(before + Seq::<char>::empty() == before);
    }
    while i < tags.len()
        invariant
            0 <= i <= tags@.len(),
            doc.is_at(spaces),
            doc.text@ == before + tag_elements(spaces, tags@.take(i as int)),
        decreases tags@.len() - i,
    {
        write_text_element(doc, "tag", tags[i].as_str(), Ghost(spaces))?;
        proof {
            assert(tags@.take(i + 1).drop_last() == tags@.take(i as int));
            lemma_associative(
                before,
                tag_elements(spaces, tags@.take(i as int)),
                text_element(spaces, "tag"@, tags@[i as int]@),
            );
        }
        i = i + 1;
    }
    proof {
        assert(tags@.take(i as int) == tags@);
    }
    Ok(())
}

/// An element for an item.
fn write_item(
    doc: &mut Document,
    item: &InvoiceItem,
    default_currency: &str,
    Ghost(spaces): Ghost<nat>,
) -> (r: Result<(), Failure>)
    requires
        old(doc).is_at(spaces),
    ensures
        r is Ok,
        final(doc).goes_on(old(doc), item_element(spaces, *item, default_currency@), spaces),
        models::is_amount_text(item.debit.value@.text),
{
    let ghost before = doc.text@;
    let ghost mut more = opening(spaces, "item"@);
    write_opening(doc, "item", Ghost(spaces))?;
    write_text_element(doc, "date", item.date.to_string().as_str(), Ghost(spaces + 2))?;
    proof {
        let element = text_element(spaces + 2, "date"@, calendar::date_text(item.date@));
        lemma_associative(before, more, element);
        more = more + element;
    }
    write_text_element(doc, "summary", item.summary.as_str(), Ghost(spaces + 2))?;
    proof {
        let element = text_element(spaces + 2, "summary"@, item.summary@);
        lemma_associative(before, more, element);
        more = more + element;
    }
    write_optional_element(doc, "details", &item.details, Ghost(spaces + 2))?;
    proof {
        let element = optional_element(spaces + 2, "details"@, item.details);
        lemma_associative(before, more, element);
        more = more + element;
    }
    write_optional_element(doc, "link", &item.link, Ghost(spaces + 2))?;
    proof {
        let element = optional_element(spaces + 2, "link"@, item.link);
        lemma_associative(before, more, element);
        more = more + element;
    }
    write_tags(doc, &item.tags, Ghost(spaces + 2))?;
    proof {
        let elements = tag_elements(spaces + 2, item.tags@);
        lemma_associative(before, more, elements);
        more = more + elements;
    }
    write_money_element(doc, "debit", &item.debit, default_currency, Ghost(spaces + 2))?;
    proof {
        let element = money_element(spaces + 2, "debit"@, item.debit, default_currency@);
        lemma_associative(before, more, element);
        more = more + element;
    }
    if let Some(credit) = &item.credit {
        write_money_element(doc, "credit", credit, default_currency, Ghost(spaces + 2))?;
    } else {
        proof {
            assert(doc.text@ + Seq::<char>::empty() == doc.text@);
        }
    }
    proof {
        let element = credit_element(spaces + 2, item.credit, default_currency@);
        lemma_associative(before, more, element);
        more = more + element;
    }
    doc.close("item")?;
    proof {
        lemma_associative(before, more, closing(spaces, "item"@));
    }
    Ok(())
}

/// The elements for a list of items.
fn write_items(
    doc: &mut Document,
    items: &Vec<InvoiceItem>,
    default_currency: &str,
    Ghost(spaces): Ghost<nat>,
) -> (r: Result<(), Failure>)
    requires
        old(doc).is_at(spaces),
    ensures
        r is Ok,
        final(doc).goes_on(old(doc), item_elements(spaces, items@, default_currency@), spaces),
        forall|k: int|
            0 <= k < items@.len() ==> models::is_amount_text(
                (#[trigger] items@[k]).debit.value@.text,
            ),
{
    let ghost before = doc.text@;
    let mut i: usize = 0;
    proof {
        assert(before + Seq::<char>::empty() == before);
    }
    while i < items.len()
        invariant
            0 <= i <= items@.len(),
            doc.is_at(spaces),
            doc.text@ == before + item_elements(
                spaces,
                items@.take(i as int),
                default_currency@,
            ),
            forall|k: int|
                0 <= k < i ==> models::is_amount_text((#[trigger] items@[k]).debit.value@.text),
        decreases items@.len() - i,
    {
        write_item(doc, &items[i], default_currency, Ghost(spaces))?;
        proof {
            assert(items@.take(i + 1).drop_last() == items@.take(i as int));
            lemma_associative(
                before,
                item_elements(spaces, items@.take(i as int), default_currency@),
                item_element(spaces, items@[i as int], default_currency@),
            );
        }
        i = i + 1;
    }
    proof {
        assert(items@.take(i as int) == items@);
    }
    Ok(())
}

/// The due date of an invoice is found in a text, and so is the debit of its first item, where
/// that is in the currency of the invoice.
pub open spec fn tells_due_date_and_amount(body: Seq<char>, invoice: Invoice) -> bool {
    &&& xml_value(body, "paymentDueBy"@) == Some(calendar::date_text(invoice.payment_due_by@))
    &&& invoice.items@.len() >= 1 && invoice.items@[0].debit.currency@ == invoice.currency@
        ==> xml_value(body, "debit"@) == Some(invoice.items@[0].debit.value@.text)
}

/// The document for an invoice. Its due date and the amount of its first item are found in it as
/// they are written, whatever the other texts hold.
pub fn build_invoice_xml(invoice: &Invoice) -> (r: Result<String, Failure>)
    ensures
        r is Ok,
        r->Ok_0@ == document(*invoice),
        tells_due_date_and_amount(r->Ok_0@, *invoice),
{
    let mut doc = Document::new();
    doc.declare()?;
    let attributes = [
        ("xmlns:xsi", "http://www.w3.org/2001/XMLSchema-instance"),
        ("xmlns", "https://hpkns.uk/accounting"),
        ("defaultCurrency", invoice.currency.as_str()),
    ];
    doc.open("invoice", &attributes)?;
    proof {
        let declaration = "<?xml version=\"1.0\" encoding=\"UTF-8\"?>"@;
        let root = start_tag("invoice"@, root_attributes(invoice.currency@));
        assert(attributes_view(attributes@) == root_attributes(invoice.currency@));
        assert(Seq::<char>::empty() + (Seq::<char>::empty() + declaration) == declaration);
        lemma_associative(declaration, margin(0), root);
        assert(doc.text@ == document_head(*invoice));
    }
    write_text_element(
        &mut doc,
        "paymentDueBy",
        invoice.payment_due_by.to_string().as_str(),
        Ghost(2),
    )?;
    write_opening(&mut doc, "parties", Ghost(2))?;
    write_party(&mut doc, "us", &invoice.supplier, Ghost(4))?;
    write_party(&mut doc, "them", &invoice.customer, Ghost(4))?;
    doc.close("parties")?;
    write_opening(&mut doc, "items", Ghost(2))?;
    write_items(&mut doc, &invoice.items, invoice.currency.as_str(), Ghost(4))?;
    doc.close("items")?;
    write_optional_element(&mut doc, "notes", &invoice.notes, Ghost(2))?;
    doc.close("invoice")?;
    proof {
        readback::due_date_is_found(*invoice);
        if invoice.items@.len() >= 1 && invoice.items@[0].debit.currency@ == invoice.currency@ {
            readback::debit_is_found(*invoice);
        }
    }
    doc.finish()
}

/// The tag without attributes that opens an element.
pub open spec fn plain_tag(element: Seq<char>) -> Seq<char> {
    "<"@ + element + ">"@
}

/// The text from the first plain opening tag of an element to the first closing tag after it,
/// without the white space at its ends.
pub open spec fn xml_value(body: Seq<char>, element: Seq<char>) -> Option<Seq<char>> {
    match text::first_from(body, plain_tag(element), 0) {
        Some(at) => {
            let start = at + plain_tag(element).len();
            match text::first_from(body, end_tag(element), start) {
                Some(end) => Some(text::trimmed(body.subrange(start, end))),
                None => None,
            }
        },
        None => None,
    }
}

/// The text from the first plain opening tag of an element to the first closing tag after it,
/// without the white space at its ends.
pub fn find_xml_value(body: &str, element: &str) -> (r: Option<String>)
    ensures
        match r {
            Some(value) => xml_value(body@, element@) == Some(value@),
            None => xml_value(body@, element@) is None,
        },
{
    let start_tag = text::chars_of("<".to_owned().concat(element).concat(">").as_str());
    let end_tag = text::chars_of("</".to_owned().concat(element).concat(">").as_str());
    let chars = text::chars_of(body);
    let start: usize = match text::find_from(&chars, &start_tag, 0) {
        Some(at) => at + start_tag.len(),
        None => {
            return None;
        },
    };
    let end: usize = match text::find_from(&chars, &end_tag, start) {
        Some(at) => at,
        None => {
            return None;
        },
    };
    Some(text::trim(body.substring_char(start, end)).to_owned())
}

} // verus!
