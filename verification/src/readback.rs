//! What can be read back of the text of a document.

use vstd::prelude::*;

use crate::calendar;
use crate::config::Config;
use crate::models;
use crate::models::Invoice;
use crate::models::InvoiceItem;
use crate::models::Party;
use crate::models::ProjectBilling;
use crate::text;
use crate::xml;

verus! {

/// No element begins or ends in the text.
pub open spec fn has_no_tag(s: Seq<char>) -> bool {
    !s.contains('<')
}

proof fn lemma_spelled_char(c: char, in_attribute: bool)
    ensures
        xml::spelled_char(c, in_attribute).len() > 0,
        has_no_tag(xml::spelled_char(c, in_attribute)),
        !xml::spelled_char(c, in_attribute).contains('>'),
        !xml::spelled_char(c, in_attribute).contains('"'),
{
    reveal_strlit("&lt;");
    reveal_strlit("&gt;");
    reveal_strlit("&amp;");
    reveal_strlit("&apos;");
    reveal_strlit("&quot;");
    reveal_strlit("&#13;");
    reveal_strlit("&#10;");
    reveal_strlit("&#9;");
}

proof fn lemma_spelled(s: Seq<char>, in_attribute: bool)
    ensures
        has_no_tag(xml::spelled(s, in_attribute)),
        !xml::spelled(s, in_attribute).contains('>'),
        !xml::spelled(s, in_attribute).contains('"'),
    decreases s.len(),
{
    if s.len() > 0 {
        lemma_spelled(s.drop_last(), in_attribute);
        lemma_spelled_char(s.last(), in_attribute);
    }
}

/// An escaped text holds no tag, so it ends no element.
pub proof fn escaped_text_has_no_tag(s: Seq<char>)
    ensures
        has_no_tag(xml::escaped(s)),
        !xml::escaped(s).contains('>'),
{
    lemma_spelled(s, false);
}

/// An escaped value of an attribute holds no tag and no quote, so it ends neither the tag nor the
/// value.
pub proof fn escaped_value_stays_inside(s: Seq<char>)
    ensures
        has_no_tag(xml::escaped_value(s)),
        !xml::escaped_value(s).contains('>'),
        !xml::escaped_value(s).contains('"'),
{
    lemma_spelled(s, true);
}

proof fn lemma_spelled_first(s: Seq<char>, in_attribute: bool)
    requires
        s.len() > 0,
    ensures
        xml::spelled(s, in_attribute) == xml::spelled_char(s.first(), in_attribute) + xml::spelled(
            s.drop_first(),
            in_attribute,
        ),
    decreases s.len(),
{
    let first = xml::spelled_char(s.first(), in_attribute);
    if s.len() == 1 {
        reveal_with_fuel(xml::spelled, 2);
        assert(s.drop_last() == Seq::<char>::empty());
        assert(s.drop_first() == Seq::<char>::empty());
        assert(xml::spelled(s, in_attribute) == first + Seq::<char>::empty());
    } else {
        lemma_spelled_first(s.drop_last(), in_attribute);
        assert(s.drop_last().drop_first() == s.drop_first().drop_last());
        xml::lemma_associative(
            first,
            xml::spelled(s.drop_last().drop_first(), in_attribute),
            xml::spelled_char(s.last(), in_attribute),
        );
    }
}

proof fn lemma_spelled_char_is_told(
    a: char,
    x: Seq<char>,
    b: char,
    y: Seq<char>,
    in_attribute: bool,
)
    requires
        xml::spelled_char(a, in_attribute) + x == xml::spelled_char(b, in_attribute) + y,
    ensures
        a == b,
        x == y,
{
    reveal_strlit("&lt;");
    reveal_strlit("&gt;");
    reveal_strlit("&amp;");
    reveal_strlit("&apos;");
    reveal_strlit("&quot;");
    reveal_strlit("&#13;");
    reveal_strlit("&#10;");
    reveal_strlit("&#9;");
    let first = xml::spelled_char(a, in_attribute);
    let second = xml::spelled_char(b, in_attribute);
    let s = first + x;
    assert(s[0] == first[0] && s[0] == second[0]);
    if s[0] == '&' {
        assert(s[1] == first[1] && s[1] == second[1]);
        assert(s[2] == first[2] && s[2] == second[2]);
        assert(s[3] == first[3] && s[3] == second[3]);
    }
    assert(a == b);
    assert(s.skip(first.len() as int) == x);
    assert(s.skip(second.len() as int) == y);
}

proof fn lemma_spelling_loses_nothing(a: Seq<char>, b: Seq<char>, in_attribute: bool)
    requires
        xml::spelled(a, in_attribute) == xml::spelled(b, in_attribute),
    ensures
        a == b,
    decreases a.len(),
{
    if a.len() > 0 {
        lemma_spelled_first(a, in_attribute);
        lemma_spelled_char(a.first(), in_attribute);
        assert(xml::spelled(a, in_attribute).len() > 0);
    }
    if b.len() > 0 {
        lemma_spelled_first(b, in_attribute);
        lemma_spelled_char(b.first(), in_attribute);
        assert(xml::spelled(b, in_attribute).len() > 0);
    }
    if a.len() > 0 && b.len() > 0 {
        lemma_spelled_char_is_told(
            a.first(),
            xml::spelled(a.drop_first(), in_attribute),
            b.first(),
            xml::spelled(b.drop_first(), in_attribute),
            in_attribute,
        );
        lemma_spelling_loses_nothing(a.drop_first(), b.drop_first(), in_attribute);
        assert(a == seq![a.first()] + a.drop_first());
        assert(b == seq![b.first()] + b.drop_first());
    } else {
        assert(a == b);
    }
}

/// Escaping loses nothing: texts that differ are escaped differently.
pub proof fn escaping_loses_nothing(a: Seq<char>, b: Seq<char>)
    requires
        xml::escaped(a) == xml::escaped(b),
    ensures
        a == b,
{
    lemma_spelling_loses_nothing(a, b, false);
}

/// Escaping in attributes loses nothing: values that differ are escaped differently.
pub proof fn escaping_values_loses_nothing(a: Seq<char>, b: Seq<char>)
    requires
        xml::escaped_value(a) == xml::escaped_value(b),
    ensures
        a == b,
{
    lemma_spelling_loses_nothing(a, b, true);
}

/// The value of an element is found in a text, but for white space around it, where the element
/// is the first of its name and its value does not hold its closing tag.
pub proof fn element_is_found(
    before: Seq<char>,
    element: Seq<char>,
    value: Seq<char>,
    after: Seq<char>,
)
    requires
        forall|i: int|
            0 <= i < before.len() ==> !#[trigger] text::occurs_at(
                before + xml::plain_tag(element) + value + xml::end_tag(element) + after,
                xml::plain_tag(element),
                i,
            ),
        forall|i: int|
            0 <= i < value.len() ==> !#[trigger] text::occurs_at(
                value + xml::end_tag(element) + after,
                xml::end_tag(element),
                i,
            ),
    ensures
        xml::xml_value(
            before + xml::plain_tag(element) + value + xml::end_tag(element) + after,
            element,
        ) == Some(text::trimmed(value)),
{
    let tag = xml::plain_tag(element);
    let close = xml::end_tag(element);
    let body = before + tag + value + close + after;
    let rest = value + close + after;
    let start = before.len() + tag.len();
    let end = start + value.len();
    assert(body.subrange(before.len() as int, start as int) == tag);
    text::lemma_is_first_from(body, tag, 0, before.len() as int);
    assert(body.subrange(end as int, (end + close.len()) as int) == close);
    assert forall|i: int| start <= i < end implies !#[trigger] text::occurs_at(body, close, i) by {
        assert(!text::occurs_at(rest, close, i - start));
        if text::occurs_at(body, close, i) {
            assert(rest.subrange(i - start, i - start + close.len()) == body.subrange(
                i,
                i + close.len(),
            ));
        }
    }
    text::lemma_is_first_from(body, close, start as int, end as int);
    assert(body.subrange(start as int, end as int) == value);
}

/// A text without tags does not hold the closing tag of an element.
pub proof fn text_holds_no_closing_tag(value: Seq<char>, element: Seq<char>, after: Seq<char>)
    requires
        has_no_tag(value),
    ensures
        forall|i: int|
            0 <= i < value.len() ==> !#[trigger] text::occurs_at(
                value + xml::end_tag(element) + after,
                xml::end_tag(element),
                i,
            ),
{
    let rest = value + xml::end_tag(element) + after;
    let close = xml::end_tag(element);
    reveal_strlit("</");
    assert forall|i: int| 0 <= i < value.len() implies !#[trigger] text::occurs_at(
        rest,
        close,
        i,
    ) by {
        if text::occurs_at(rest, close, i) {
            assert(rest.subrange(i, i + close.len())[0] == close[0]);
            assert(rest[i] == value[i]);
        }
    }
}

proof fn lemma_found_one_earlier(s: Seq<char>, pattern: Seq<char>, from: int)
    requires
        s.len() > 0,
        from >= 0,
    ensures
        text::first_from(s, pattern, from + 1) == (match text::first_from(
            s.drop_first(),
            pattern,
            from,
        ) {
            Some(at) => Some(at + 1),
            None => None,
        }),
    decreases s.len() - from,
{
    let t = s.drop_first();
    if from + pattern.len() <= t.len() {
        assert(t.subrange(from, from + pattern.len()) == s.subrange(
            from + 1,
            from + 1 + pattern.len(),
        ));
        if !text::occurs_at(t, pattern, from) {
            lemma_found_one_earlier(s, pattern, from + 1);
        }
    }
}

proof fn lemma_found_without_last(s: Seq<char>, pattern: Seq<char>, from: int)
    requires
        s.len() > 0,
        pattern.len() > 0,
        s.last() != pattern.last(),
        from >= 0,
    ensures
        text::first_from(s, pattern, from) == text::first_from(s.drop_last(), pattern, from),
    decreases s.len() - from,
{
    let t = s.drop_last();
    if from + pattern.len() <= s.len() {
        if from + pattern.len() == s.len() {
            assert(s.subrange(from, from + pattern.len()).last() == s.last());
            assert(!text::occurs_at(s, pattern, from));
            assert(text::first_from(s, pattern, from + 1) is None);
        } else {
            assert(t.subrange(from, from + pattern.len()) == s.subrange(
                from,
                from + pattern.len(),
            ));
            if !text::occurs_at(t, pattern, from) {
                lemma_found_without_last(s, pattern, from + 1);
            }
        }
    }
}

/// White space around a text does not matter to what is found in it.
pub proof fn white_space_around_does_not_matter(s: Seq<char>, element: Seq<char>)
    ensures
        xml::xml_value(text::trimmed(s), element) == xml::xml_value(s, element),
    decreases s.len(),
{
    let tag = xml::plain_tag(element);
    let close = xml::end_tag(element);
    if s.len() > 0 {
        reveal_strlit("<");
        reveal_strlit("</");
        reveal_strlit(">");
        if text::is_white_space(s.first()) {
            let t = s.drop_first();
            white_space_around_does_not_matter(t, element);
            if tag.len() <= s.len() && text::occurs_at(s, tag, 0) {
                assert(s.subrange(0, tag.len() as int)[0] == tag[0]);
            }
            assert(text::first_from(s, tag, 0) == text::first_from(s, tag, 1));
            lemma_found_one_earlier(s, tag, 0);
            text::lemma_first_from(t, tag, 0);
            if let Some(at) = text::first_from(t, tag, 0) {
                let start = at + tag.len();
                lemma_found_one_earlier(s, close, start);
                text::lemma_first_from(t, close, start);
                if let Some(end) = text::first_from(t, close, start) {
                    assert(t.subrange(start, end) == s.subrange(start + 1, end + 1));
                }
            }
        } else if text::is_white_space(s.last()) {
            let t = s.drop_last();
            white_space_around_does_not_matter(t, element);
            lemma_found_without_last(s, tag, 0);
            text::lemma_first_from(t, tag, 0);
            if let Some(at) = text::first_from(t, tag, 0) {
                let start = at + tag.len();
                lemma_found_without_last(s, close, start);
                text::lemma_first_from(t, close, start);
                if let Some(end) = text::first_from(t, close, start) {
                    assert(t.subrange(start, end) == s.subrange(start, end));
                }
            }
        }
    }
}

/// A text without characters that are escaped.
pub open spec fn is_plain(s: Seq<char>) -> bool {
    forall|i: int| 0 <= i < s.len() ==> xml::escaped_char(#[trigger] s[i]) == seq![s[i]]
}

/// A text without characters that are escaped stands in the document as it is.
pub proof fn plain_text_is_kept(s: Seq<char>)
    requires
        is_plain(s),
    ensures
        xml::escaped(s) == s,
    decreases s.len(),
{
    if s.len() > 0 {
        plain_text_is_kept(s.drop_last());
        assert(s == s.drop_last() + seq![s.last()]);
    } else {
        assert(s == Seq::<char>::empty());
    }
}

/// From index `i` on, the text and `tag` differ before either ends.
spec fn diverges(s: Seq<char>, tag: Seq<char>, i: int) -> bool {
    exists|k: int| 0 <= k < tag.len() && i + k < s.len() && s[i + k] != #[trigger] tag[k]
}

/// The tag begins nowhere in the text, whatever follows.
spec fn never_begins(s: Seq<char>, tag: Seq<char>) -> bool {
    forall|i: int| 0 <= i < s.len() ==> #[trigger] diverges(s, tag, i)
}

proof fn lemma_never_begins(a: Seq<char>, b: Seq<char>, tag: Seq<char>)
    requires
        never_begins(a, tag),
        never_begins(b, tag),
    ensures
        never_begins(a + b, tag),
{
    let s = a + b;
    assert forall|i: int| 0 <= i < s.len() implies #[trigger] diverges(s, tag, i) by {
        if i < a.len() {
            assert(diverges(a, tag, i));
            let k = choose|k: int|
                0 <= k < tag.len() && i + k < a.len() && a[i + k] != #[trigger] tag[k];
            assert(s[i + k] != tag[k]);
        } else {
            assert(diverges(b, tag, i - a.len()));
            let k = choose|k: int|
                0 <= k < tag.len() && (i - a.len()) + k < b.len() && b[(i - a.len()) + k]
                    != #[trigger] tag[k];
            assert(s[i + k] != tag[k]);
        }
    }
}

proof fn lemma_begins_not_in_text(s: Seq<char>, tag: Seq<char>)
    requires
        has_no_tag(s),
        tag.len() > 0,
        tag[0] == '<',
    ensures
        never_begins(s, tag),
{
    assert forall|i: int| 0 <= i < s.len() implies #[trigger] diverges(s, tag, i) by {
        assert(s.contains(s[i]));
        assert(s[i + 0] != tag[0]);
    }
}

proof fn lemma_begins_not_in_tag(s: Seq<char>, tag: Seq<char>, k: int)
    requires
        0 < k < s.len(),
        k < tag.len(),
        tag[0] == '<',
        s[k] != tag[k],
        has_no_tag(s.drop_first()),
    ensures
        never_begins(s, tag),
{
    assert forall|i: int| 0 <= i < s.len() implies #[trigger] diverges(s, tag, i) by {
        if i == 0 {
            assert(s[i + k] != tag[k]);
        } else {
            assert(s.drop_first().contains(s.drop_first()[i - 1]));
            assert(s[i + 0] != tag[0]);
        }
    }
}

/// A tag that never begins in the first part of a text is not found there.
proof fn lemma_not_found(before: Seq<char>, body: Seq<char>, tag: Seq<char>)
    requires
        before.is_prefix_of(body),
        never_begins(before, tag),
    ensures
        forall|i: int| 0 <= i < before.len() ==> !#[trigger] text::occurs_at(body, tag, i),
{
    assert forall|i: int| 0 <= i < before.len() implies !#[trigger] text::occurs_at(
        body,
        tag,
        i,
    ) by {
        assert(diverges(before, tag, i));
        let k = choose|k: int|
            0 <= k < tag.len() && i + k < before.len() && before[i + k] != #[trigger] tag[k];
        assert(body.subrange(0, before.len() as int)[i + k] == before[i + k]);
        if text::occurs_at(body, tag, i) {
            assert(body.subrange(i, i + tag.len())[k] == tag[k]);
        }
    }
}

proof fn lemma_margin_has_no_tag(spaces: nat)
    ensures
        has_no_tag(xml::margin(spaces)),
{
}

proof fn lemma_attributes_have_no_tag(attributes: Seq<(Seq<char>, Seq<char>)>)
    requires
        forall|i: int| 0 <= i < attributes.len() ==> has_no_tag((#[trigger] attributes[i]).0),
    ensures
        has_no_tag(xml::attributes_text(attributes)),
    decreases attributes.len(),
{
    if attributes.len() > 0 {
        lemma_attributes_have_no_tag(attributes.drop_last());
        escaped_value_stays_inside(attributes.last().1);
        assert(has_no_tag(attributes[attributes.len() - 1].0));
        reveal_strlit(" ");
        reveal_strlit("=\"");
        reveal_strlit("\"");
    }
}

/// A tag that begins with a letter other than `?` and `i` never begins in the head of a document.
proof fn lemma_not_in_head(invoice: Invoice, tag: Seq<char>)
    requires
        tag.len() > 1,
        tag[0] == '<',
        tag[1] != '?',
        tag[1] != 'i',
    ensures
        never_begins(xml::document_head(invoice), tag),
{
    let declaration = "<?xml version=\"1.0\" encoding=\"UTF-8\"?>"@;
    let attributes = xml::root_attributes(invoice.currency@);
    let root = xml::start_tag("invoice"@, attributes);
    reveal_strlit("<?xml version=\"1.0\" encoding=\"UTF-8\"?>");
    reveal_strlit("invoice");
    reveal_strlit("<");
    reveal_strlit(">");
    reveal_strlit("xmlns:xsi");
    reveal_strlit("xmlns");
    reveal_strlit("defaultCurrency");
    lemma_attributes_have_no_tag(attributes);
    lemma_begins_not_in_tag(declaration, tag, 1);
    lemma_margin_has_no_tag(0);
    lemma_begins_not_in_text(xml::margin(0), tag);
    assert(has_no_tag(root.drop_first())) by {
        assert(root.drop_first() == "invoice"@ + xml::attributes_text(attributes) + ">"@);
    }
    lemma_begins_not_in_tag(root, tag, 1);
    lemma_never_begins(declaration, xml::margin(0), tag);
    lemma_never_begins(declaration + xml::margin(0), root, tag);
}

proof fn lemma_prefix(prefix: Seq<char>, s: Seq<char>, more: Seq<char>)
    requires
        prefix.is_prefix_of(s),
    ensures
        prefix.is_prefix_of(s + more),
{
    assert((s + more).subrange(0, prefix.len() as int) == prefix);
}

/// The opening tag of an element without attributes is its plain tag.
proof fn lemma_opening(spaces: nat, name: Seq<char>)
    ensures
        xml::start_tag(name, Seq::empty()) == xml::plain_tag(name),
        xml::opening(spaces, name) == xml::margin(spaces) + xml::plain_tag(name),
{
    assert(xml::attributes_text(Seq::empty()) == Seq::<char>::empty());
    assert(xml::start_tag(name, Seq::empty()) == xml::plain_tag(name));
}

/// What stands in a document before its parties.
spec fn document_start(invoice: Invoice) -> Seq<char> {
    xml::document_head(invoice) + xml::text_element(
        2,
        "paymentDueBy"@,
        calendar::date_text(invoice.payment_due_by@),
    )
}

/// What stands in a document before its items.
spec fn document_before_items(invoice: Invoice) -> Seq<char> {
    document_start(invoice)
        + xml::opening(2, "parties"@)
        + xml::party_element(4, "us"@, invoice.supplier)
        + xml::party_element(4, "them"@, invoice.customer)
        + xml::closing(2, "parties"@)
        + xml::opening(2, "items"@)
}

proof fn lemma_document_before_items(invoice: Invoice)
    ensures
        document_start(invoice).is_prefix_of(document_before_items(invoice)),
        document_before_items(invoice).is_prefix_of(xml::document(invoice)),
        (document_before_items(invoice) + xml::item_elements(
            4,
            invoice.items@,
            invoice.currency@,
        )).is_prefix_of(xml::document(invoice)),
{
    let start = document_start(invoice);
    let s1 = start + xml::opening(2, "parties"@);
    let s2 = s1 + xml::party_element(4, "us"@, invoice.supplier);
    let s3 = s2 + xml::party_element(4, "them"@, invoice.customer);
    let s4 = s3 + xml::closing(2, "parties"@);
    let s5 = s4 + xml::opening(2, "items"@);
    let s6 = s5 + xml::item_elements(4, invoice.items@, invoice.currency@);
    let s7 = s6 + xml::closing(2, "items"@);
    let s8 = s7 + xml::optional_element(2, "notes"@, invoice.notes);
    assert(start.subrange(0, start.len() as int) == start);
    lemma_prefix(start, start, xml::opening(2, "parties"@));
    lemma_prefix(start, s1, xml::party_element(4, "us"@, invoice.supplier));
    lemma_prefix(start, s2, xml::party_element(4, "them"@, invoice.customer));
    lemma_prefix(start, s3, xml::closing(2, "parties"@));
    lemma_prefix(start, s4, xml::opening(2, "items"@));
    assert(s6.subrange(0, s6.len() as int) == s6);
    lemma_prefix(s6, s6, xml::closing(2, "items"@));
    lemma_prefix(s6, s7, xml::optional_element(2, "notes"@, invoice.notes));
    lemma_prefix(s6, s8, xml::closing(0, "invoice"@));
    assert(s5.subrange(0, s5.len() as int) == s5);
    lemma_prefix(s5, s5, xml::item_elements(4, invoice.items@, invoice.currency@));
    lemma_prefix(s5, s6, xml::closing(2, "items"@));
    lemma_prefix(s5, s7, xml::optional_element(2, "notes"@, invoice.notes));
    lemma_prefix(s5, s8, xml::closing(0, "invoice"@));
}

proof fn lemma_due_date_tag(invoice: Invoice)
    ensures
        never_begins(xml::document_head(invoice) + xml::margin(2), xml::plain_tag("paymentDueBy"@)),
{
    let tag = xml::plain_tag("paymentDueBy"@);
    reveal_strlit("<");
    reveal_strlit("paymentDueBy");
    lemma_not_in_head(invoice, tag);
    lemma_margin_has_no_tag(2);
    lemma_begins_not_in_text(xml::margin(2), tag);
    lemma_never_begins(xml::document_head(invoice), xml::margin(2), tag);
}

/// A text that begins with another, as that and the rest.
proof fn lemma_split(prefix: Seq<char>, s: Seq<char>)
    requires
        prefix.is_prefix_of(s),
    ensures
        s == prefix + s.skip(prefix.len() as int),
{
    assert(s.subrange(0, prefix.len() as int) == prefix);
}

proof fn lemma_prefix_of_prefix(a: Seq<char>, b: Seq<char>, c: Seq<char>)
    requires
        a.is_prefix_of(b),
        b.is_prefix_of(c),
    ensures
        a.is_prefix_of(c),
{
    assert(c.subrange(0, b.len() as int).subrange(0, a.len() as int) == c.subrange(
        0,
        a.len() as int,
    ));
}

/// An element that holds a text, at its place and in parts.
proof fn lemma_element_in_parts(before: Seq<char>, spaces: nat, name: Seq<char>, value: Seq<char>)
    ensures
        before + xml::text_element(spaces, name, value) == before + xml::margin(spaces)
            + xml::plain_tag(name) + xml::escaped(value) + xml::end_tag(name),
{
    let tag = xml::plain_tag(name);
    let inner = xml::escaped(value);
    lemma_opening(spaces, name);
    xml::lemma_associative(before, xml::margin(spaces) + tag + inner, xml::end_tag(name));
    xml::lemma_associative(before, xml::margin(spaces) + tag, inner);
    xml::lemma_associative(before, xml::margin(spaces), tag);
}

/// The element after the first part of a text is found, where its tag does not begin there.
proof fn lemma_element_after(before: Seq<char>, name: Seq<char>, value: Seq<char>, body: Seq<char>)
    requires
        (before + xml::plain_tag(name) + xml::escaped(value) + xml::end_tag(name)).is_prefix_of(
            body,
        ),
        never_begins(before, xml::plain_tag(name)),
    ensures
        xml::xml_value(body, name) == Some(text::trimmed(xml::escaped(value))),
{
    let upto = before + xml::plain_tag(name) + xml::escaped(value) + xml::end_tag(name);
    let after = body.skip(upto.len() as int);
    lemma_split(upto, body);
    assert(upto.subrange(0, before.len() as int) == before);
    lemma_prefix_of_prefix(before, upto, body);
    lemma_not_found(before, body, xml::plain_tag(name));
    escaped_text_has_no_tag(value);
    text_holds_no_closing_tag(xml::escaped(value), name, after);
    element_is_found(before, name, xml::escaped(value), after);
}

/// The due date of an invoice is found in its document.
pub proof fn due_date_is_found(invoice: Invoice)
    requires
        calendar::is_date(invoice.payment_due_by@),
    ensures
        xml::xml_value(xml::document(invoice), "paymentDueBy"@) == Some(
            calendar::date_text(invoice.payment_due_by@),
        ),
{
    let date = calendar::date_text(invoice.payment_due_by@);
    let head = xml::document_head(invoice);
    calendar::date_is_plain_text(invoice.payment_due_by@);
    plain_text_is_kept(date);
    text::trimming_is_final(date);
    lemma_document_before_items(invoice);
    lemma_prefix_of_prefix(
        document_start(invoice),
        document_before_items(invoice),
        xml::document(invoice),
    );
    lemma_element_in_parts(head, 2, "paymentDueBy"@, date);
    lemma_due_date_tag(invoice);
    lemma_element_after(head + xml::margin(2), "paymentDueBy"@, date, xml::document(invoice));
}

/// The tag `<debit>` never begins with the tags of an element of that name, which differs from it
/// at index `k`.
spec fn differs_from_debit(name: Seq<char>, k: int) -> bool {
    &&& has_no_tag(name)
    &&& 0 < k < xml::plain_tag(name).len()
    &&& k < xml::plain_tag("debit"@).len()
    &&& xml::plain_tag(name)[k] != xml::plain_tag("debit"@)[k]
}

proof fn lemma_debit_not_in_tags(spaces: nat, name: Seq<char>, k: int)
    requires
        differs_from_debit(name, k),
    ensures
        never_begins(xml::opening(spaces, name), xml::plain_tag("debit"@)),
        never_begins(xml::closing(spaces, name), xml::plain_tag("debit"@)),
        never_begins(xml::end_tag(name), xml::plain_tag("debit"@)),
{
    let tag = xml::plain_tag("debit"@);
    reveal_strlit("<");
    reveal_strlit(">");
    reveal_strlit("</");
    reveal_strlit("debit");
    lemma_margin_has_no_tag(spaces);
    lemma_begins_not_in_text(xml::margin(spaces), tag);
    assert(xml::plain_tag(name).drop_first() == name + ">"@);
    lemma_begins_not_in_tag(xml::plain_tag(name), tag, k);
    lemma_never_begins(xml::margin(spaces), xml::plain_tag(name), tag);
    lemma_opening(spaces, name);
    assert(xml::end_tag(name).drop_first() == seq!['/'] + name + ">"@);
    lemma_begins_not_in_tag(xml::end_tag(name), tag, 1);
    lemma_never_begins(xml::margin(spaces), xml::end_tag(name), tag);
}

proof fn lemma_debit_not_in_element(spaces: nat, name: Seq<char>, value: Seq<char>, k: int)
    requires
        differs_from_debit(name, k),
    ensures
        never_begins(xml::text_element(spaces, name, value), xml::plain_tag("debit"@)),
{
    let tag = xml::plain_tag("debit"@);
    lemma_debit_not_in_tags(spaces, name, k);
    escaped_text_has_no_tag(value);
    assert(tag[0] == '<') by {
        reveal_strlit("<");
    }
    lemma_begins_not_in_text(xml::escaped(value), tag);
    lemma_never_begins(xml::opening(spaces, name), xml::escaped(value), tag);
    lemma_never_begins(xml::opening(spaces, name) + xml::escaped(value), xml::end_tag(name), tag);
}

proof fn lemma_debit_not_in_optional(
    spaces: nat,
    name: Seq<char>,
    value: Option<String>,
    k: int,
)
    requires
        differs_from_debit(name, k),
    ensures
        never_begins(xml::optional_element(spaces, name, value), xml::plain_tag("debit"@)),
{
    if let Some(s) = value {
        lemma_debit_not_in_element(spaces, name, s@, k);
    }
}

proof fn lemma_names_differ_from_debit()
    ensures
        differs_from_debit("paymentDueBy"@, 1),
        differs_from_debit("parties"@, 1),
        differs_from_debit("us"@, 1),
        differs_from_debit("them"@, 1),
        differs_from_debit("name"@, 1),
        differs_from_debit("address"@, 1),
        differs_from_debit("email"@, 1),
        differs_from_debit("items"@, 1),
        differs_from_debit("item"@, 1),
        differs_from_debit("date"@, 2),
        differs_from_debit("summary"@, 1),
        differs_from_debit("details"@, 3),
        differs_from_debit("link"@, 1),
        differs_from_debit("tag"@, 1),
{
    reveal_strlit("<");
    reveal_strlit(">");
    reveal_strlit("debit");
    reveal_strlit("paymentDueBy");
    reveal_strlit("parties");
    reveal_strlit("us");
    reveal_strlit("them");
    reveal_strlit("name");
    reveal_strlit("address");
    reveal_strlit("email");
    reveal_strlit("items");
    reveal_strlit("item");
    reveal_strlit("date");
    reveal_strlit("summary");
    reveal_strlit("details");
    reveal_strlit("link");
    reveal_strlit("tag");
}

proof fn lemma_debit_not_in_party(name: Seq<char>, party: Party)
    requires
        differs_from_debit(name, 1),
    ensures
        never_begins(xml::party_element(4, name, party), xml::plain_tag("debit"@)),
{
    let tag = xml::plain_tag("debit"@);
    lemma_names_differ_from_debit();
    lemma_debit_not_in_tags(4, name, 1);
    lemma_debit_not_in_element(6, "name"@, party.name@, 1);
    lemma_debit_not_in_element(6, "address"@, party.address@, 1);
    lemma_debit_not_in_element(6, "email"@, party.email@, 1);
    let s1 = xml::opening(4, name) + xml::text_element(6, "name"@, party.name@);
    let s2 = s1 + xml::text_element(6, "address"@, party.address@);
    let s3 = s2 + xml::text_element(6, "email"@, party.email@);
    lemma_never_begins(xml::opening(4, name), xml::text_element(6, "name"@, party.name@), tag);
    lemma_never_begins(s1, xml::text_element(6, "address"@, party.address@), tag);
    lemma_never_begins(s2, xml::text_element(6, "email"@, party.email@), tag);
    lemma_never_begins(s3, xml::closing(4, name), tag);
}

proof fn lemma_debit_not_before_items(invoice: Invoice)
    ensures
        never_begins(document_before_items(invoice), xml::plain_tag("debit"@)),
{
    let tag = xml::plain_tag("debit"@);
    let date = calendar::date_text(invoice.payment_due_by@);
    lemma_names_differ_from_debit();
    assert(tag.len() > 1 && tag[0] == '<' && tag[1] == 'd') by {
        reveal_strlit("<");
        reveal_strlit("debit");
    }
    lemma_not_in_head(invoice, tag);
    lemma_debit_not_in_element(2, "paymentDueBy"@, date, 1);
    lemma_debit_not_in_tags(2, "parties"@, 1);
    lemma_debit_not_in_party("us"@, invoice.supplier);
    lemma_debit_not_in_party("them"@, invoice.customer);
    lemma_debit_not_in_tags(2, "items"@, 1);
    let start = document_start(invoice);
    let s1 = start + xml::opening(2, "parties"@);
    let s2 = s1 + xml::party_element(4, "us"@, invoice.supplier);
    let s3 = s2 + xml::party_element(4, "them"@, invoice.customer);
    let s4 = s3 + xml::closing(2, "parties"@);
    lemma_never_begins(
        xml::document_head(invoice),
        xml::text_element(2, "paymentDueBy"@, date),
        tag,
    );
    lemma_never_begins(start, xml::opening(2, "parties"@), tag);
    lemma_never_begins(s1, xml::party_element(4, "us"@, invoice.supplier), tag);
    lemma_never_begins(s2, xml::party_element(4, "them"@, invoice.customer), tag);
    lemma_never_begins(s3, xml::closing(2, "parties"@), tag);
    lemma_never_begins(s4, xml::opening(2, "items"@), tag);
}

proof fn lemma_debit_not_in_tag_elements(tags: Seq<String>)
    ensures
        never_begins(xml::tag_elements(6, tags), xml::plain_tag("debit"@)),
    decreases tags.len(),
{
    if tags.len() > 0 {
        lemma_names_differ_from_debit();
        lemma_debit_not_in_tag_elements(tags.drop_last());
        lemma_debit_not_in_element(6, "tag"@, tags.last()@, 1);
        lemma_never_begins(
            xml::tag_elements(6, tags.drop_last()),
            xml::text_element(6, "tag"@, tags.last()@),
            xml::plain_tag("debit"@),
        );
    }
}

/// What stands in the element for an item before its debit.
spec fn item_before_debit(item: InvoiceItem) -> Seq<char> {
    xml::opening(4, "item"@)
        + xml::text_element(6, "date"@, calendar::date_text(item.date@))
        + xml::text_element(6, "summary"@, item.summary@)
        + xml::optional_element(6, "details"@, item.details)
        + xml::optional_element(6, "link"@, item.link)
        + xml::tag_elements(6, item.tags@)
}

proof fn lemma_debit_not_before_itself(item: InvoiceItem)
    ensures
        never_begins(item_before_debit(item), xml::plain_tag("debit"@)),
{
    let tag = xml::plain_tag("debit"@);
    let date = calendar::date_text(item.date@);
    lemma_names_differ_from_debit();
    lemma_debit_not_in_tags(4, "item"@, 1);
    lemma_debit_not_in_element(6, "date"@, date, 2);
    lemma_debit_not_in_element(6, "summary"@, item.summary@, 1);
    lemma_debit_not_in_optional(6, "details"@, item.details, 3);
    lemma_debit_not_in_optional(6, "link"@, item.link, 1);
    lemma_debit_not_in_tag_elements(item.tags@);
    let s1 = xml::opening(4, "item"@) + xml::text_element(6, "date"@, date);
    let s2 = s1 + xml::text_element(6, "summary"@, item.summary@);
    let s3 = s2 + xml::optional_element(6, "details"@, item.details);
    let s4 = s3 + xml::optional_element(6, "link"@, item.link);
    lemma_never_begins(xml::opening(4, "item"@), xml::text_element(6, "date"@, date), tag);
    lemma_never_begins(s1, xml::text_element(6, "summary"@, item.summary@), tag);
    lemma_never_begins(s2, xml::optional_element(6, "details"@, item.details), tag);
    lemma_never_begins(s3, xml::optional_element(6, "link"@, item.link), tag);
    lemma_never_begins(s4, xml::tag_elements(6, item.tags@), tag);
}

/// The elements for some items begin with the one for the first.
proof fn lemma_first_item(items: Seq<InvoiceItem>, currency: Seq<char>)
    requires
        items.len() >= 1,
    ensures
        xml::item_element(4, items[0], currency).is_prefix_of(
            xml::item_elements(4, items, currency),
        ),
    decreases items.len(),
{
    let first = xml::item_element(4, items[0], currency);
    let shorter = xml::item_elements(4, items.drop_last(), currency);
    let last = xml::item_element(4, items.last(), currency);
    if items.len() == 1 {
        assert(items.drop_last() == Seq::<InvoiceItem>::empty());
        assert(shorter == Seq::<char>::empty());
        assert(shorter + last == first);
        assert(first.subrange(0, first.len() as int) == first);
    } else {
        lemma_first_item(items.drop_last(), currency);
        lemma_prefix(first, shorter, last);
    }
}

proof fn lemma_debit_in_items(invoice: Invoice)
    requires
        invoice.items@.len() >= 1,
    ensures
        ({
            let item = invoice.items@[0];
            let outer = document_before_items(invoice);
            let debit = xml::money_element(6, "debit"@, item.debit, invoice.currency@);
            let items = xml::item_elements(4, invoice.items@, invoice.currency@);
            (outer + (item_before_debit(item) + debit)).is_prefix_of(outer + items)
        }),
{
    let item = invoice.items@[0];
    let outer = document_before_items(invoice);
    let inner = item_before_debit(item) + xml::money_element(
        6,
        "debit"@,
        item.debit,
        invoice.currency@,
    );
    let credit = xml::credit_element(6, item.credit, invoice.currency@);
    let whole = xml::item_element(4, item, invoice.currency@);
    let items = xml::item_elements(4, invoice.items@, invoice.currency@);
    assert(inner.subrange(0, inner.len() as int) == inner);
    lemma_prefix(inner, inner, credit);
    lemma_prefix(inner, inner + credit, xml::closing(4, "item"@));
    lemma_first_item(invoice.items@, invoice.currency@);
    lemma_prefix_of_prefix(inner, whole, items);
    lemma_split(inner, items);
    let rest = items.skip(inner.len() as int);
    xml::lemma_associative(outer, inner, rest);
    assert((outer + inner).subrange(0, (outer + inner).len() as int) == outer + inner);
    lemma_prefix(outer + inner, outer + inner, rest);
}

proof fn lemma_debit_tag(invoice: Invoice)
    requires
        invoice.items@.len() >= 1,
    ensures
        never_begins(
            document_before_items(invoice) + item_before_debit(invoice.items@[0]) + xml::margin(6),
            xml::plain_tag("debit"@),
        ),
{
    let tag = xml::plain_tag("debit"@);
    let outer = document_before_items(invoice);
    let inner = item_before_debit(invoice.items@[0]);
    assert(tag.len() > 0 && tag[0] == '<') by {
        reveal_strlit("<");
    }
    lemma_debit_not_before_items(invoice);
    lemma_debit_not_before_itself(invoice.items@[0]);
    lemma_margin_has_no_tag(6);
    lemma_begins_not_in_text(xml::margin(6), tag);
    lemma_never_begins(outer, inner, tag);
    lemma_never_begins(outer + inner, xml::margin(6), tag);
}

proof fn lemma_decimal_is_plain(s: Seq<char>)
    requires
        models::is_decimal(s),
    ensures
        is_plain(s),
        text::is_trim(s),
{
    let whole = s.take(s.len() - 3);
    let hundredths = s.skip(s.len() - 2);
    assert forall|i: int| 0 <= i < s.len() implies ('0' <= #[trigger] s[i] <= '9' || s[i]
        == '.') by {
        if i < s.len() - 3 {
            assert(s[i] == whole[i]);
        } else if i > s.len() - 3 {
            assert(s[i] == hundredths[i - (s.len() - 2)]);
        }
    }
    assert(s.first() == whole[0]);
    assert(s.last() == hundredths[1]);
}

/// An amount is written in characters that are not escaped, without white space at its ends.
pub proof fn amounts_are_plain(s: Seq<char>)
    requires
        models::is_amount_text(s),
    ensures
        is_plain(s),
        text::is_trim(s),
{
    let number = models::without_minus(s);
    reveal_strlit("NaN");
    reveal_strlit("inf");
    if s != "NaN"@ {
        if number != "inf"@ {
            lemma_decimal_is_plain(number);
        }
        assert(is_plain(number) && text::is_trim(number) && number.len() > 0);
        if number != s {
            assert(s == seq!['-'] + number);
        }
    }
}

/// The debit of the first item of an invoice, in the currency of the invoice, is found in its
/// document as it is written, whatever the other texts hold.
pub proof fn debit_is_found(invoice: Invoice)
    requires
        invoice.items@.len() >= 1,
        invoice.items@[0].debit.currency@ == invoice.currency@,
        models::is_amount_text(invoice.items@[0].debit.value@.text),
    ensures
        xml::xml_value(xml::document(invoice), "debit"@) == Some(
            invoice.items@[0].debit.value@.text,
        ),
{
    let item = invoice.items@[0];
    let amount = item.debit.value@.text;
    let outer = document_before_items(invoice);
    let inner = item_before_debit(item);
    lemma_debit_in_items(invoice);
    lemma_document_before_items(invoice);
    lemma_prefix_of_prefix(
        outer + (inner + xml::text_element(6, "debit"@, amount)),
        outer + xml::item_elements(4, invoice.items@, invoice.currency@),
        xml::document(invoice),
    );
    xml::lemma_associative(outer, inner, xml::text_element(6, "debit"@, amount));
    lemma_element_in_parts(outer + inner, 6, "debit"@, amount);
    lemma_debit_tag(invoice);
    lemma_element_after(
        outer + inner + xml::margin(6),
        "debit"@,
        amount,
        xml::document(invoice),
    );
    amounts_are_plain(amount);
    plain_text_is_kept(amount);
    text::trimming_is_final(amount);
}

/// The invoice for a billing is in the currency of the billing: that is the default currency of
/// its document, and the amount names no other.
pub proof fn invoice_is_in_billing_currency(
    invoice: Invoice,
    config: Config,
    billing: ProjectBilling,
    idempotency_key: Seq<char>,
)
    requires
        invoice.is_of(config, billing, idempotency_key),
    ensures
        xml::root_attributes(invoice.currency@).contains(
            ("defaultCurrency"@, billing.amount.currency@),
        ),
        xml::currency_attribute(invoice.items@[0].debit, invoice.currency@).len() == 0,
{
    assert(xml::root_attributes(invoice.currency@)[2] == (
        "defaultCurrency"@,
        billing.amount.currency@,
    ));
}

/// The document of the invoice for a billing tells the configured due date and the amount of the
/// billing, as they are written.
pub proof fn document_tells_due_date_and_amount(
    invoice: Invoice,
    config: Config,
    billing: ProjectBilling,
    idempotency_key: Seq<char>,
)
    requires
        invoice.is_of(config, billing, idempotency_key),
        calendar::is_date(config.invoice.payment_due_by@),
        models::is_amount_text(billing.amount.value@.text),
    ensures
        xml::xml_value(xml::document(invoice), "paymentDueBy"@) == Some(
            calendar::date_text(config.invoice.payment_due_by@),
        ),
        xml::xml_value(xml::document(invoice), "debit"@) == Some(billing.amount.value@.text),
{
    due_date_is_found(invoice);
    debit_is_found(invoice);
}

proof fn lemma_tag_elements(a: Seq<String>, b: Seq<String>)
    requires
        a.len() == b.len(),
        forall|i: int| 0 <= i < a.len() ==> (#[trigger] a[i])@ == b[i]@,
    ensures
        xml::tag_elements(6, a) == xml::tag_elements(6, b),
    decreases a.len(),
{
    if a.len() > 0 {
        assert forall|i: int| 0 <= i < a.drop_last().len() implies (#[trigger] a.drop_last()[i])@
            == b.drop_last()[i]@ by {
            assert(a[i]@ == b[i]@);
        }
        lemma_tag_elements(a.drop_last(), b.drop_last());
        assert(a[a.len() - 1]@ == b[b.len() - 1]@);
    }
}

/// A billing has one document: invoices for it, whatever their keys, read the same.
pub proof fn billing_has_one_document(
    a: Invoice,
    b: Invoice,
    config: Config,
    billing: ProjectBilling,
    a_key: Seq<char>,
    b_key: Seq<char>,
)
    requires
        a.is_of(config, billing, a_key),
        b.is_of(config, billing, b_key),
    ensures
        xml::document(a) == xml::document(b),
{
    let x = a.items@[0];
    let y = b.items@[0];
    let tags = models::item_tags(billing);
    assert(x.tags.deep_view().len() == tags.len() && y.tags.deep_view().len() == tags.len());
    assert forall|i: int| 0 <= i < x.tags@.len() implies (#[trigger] x.tags@[i])@
        == y.tags@[i]@ by {
        assert(x.tags.deep_view()[i] == tags[i]);
        assert(y.tags.deep_view()[i] == tags[i]);
    }
    lemma_tag_elements(x.tags@, y.tags@);
    assert(xml::item_element(4, x, a.currency@) == xml::item_element(4, y, b.currency@));
    reveal_with_fuel(xml::item_elements, 2);
    assert(a.items@.drop_last() == Seq::<InvoiceItem>::empty());
    assert(b.items@.drop_last() == Seq::<InvoiceItem>::empty());
    assert(xml::item_elements(4, a.items@, a.currency@) == xml::item_elements(
        4,
        b.items@,
        b.currency@,
    ));
}

} // verus!
