//! What stands in the document of an invoice, to the letter.

use vstd::prelude::*;

use crate::calendar;
use crate::models::Invoice;
use crate::models::InvoiceItem;
use crate::models::Money;
use crate::models::Party;
use crate::readback;
use crate::xml;

verus! {

/// Texts are escaped character by character: markup, quotes and the carriage return by their
/// entities, every other character as it is. In attributes the line feed and the tab have entities
/// too.
pub proof fn characters_have_their_entities(c: char)
    ensures
        ({
            let entity = if c == '<' {
                "&lt;"@
            } else if c == '>' {
                "&gt;"@
            } else if c == '&' {
                "&amp;"@
            } else if c == '\'' {
                "&apos;"@
            } else if c == '"' {
                "&quot;"@
            } else if c == '\r' {
                "&#13;"@
            } else {
                seq![c]
            };
            &&& xml::escaped(seq![c]) == entity
            &&& c == '\n' ==> xml::escaped_value(seq![c]) == "&#10;"@
            &&& c == '\t' ==> xml::escaped_value(seq![c]) == "&#9;"@
            &&& c != '\n' && c != '\t' ==> xml::escaped_value(seq![c]) == entity
        }),
{
    reveal_with_fuel(xml::spelled, 2);
    assert(seq![c].drop_last() == Seq::<char>::empty());
    assert(xml::escaped(seq![c]) == Seq::<char>::empty() + xml::spelled_char(c, false));
    assert(xml::escaped_value(seq![c]) == Seq::<char>::empty() + xml::spelled_char(c, true));
    assert(xml::escaped(seq![c]) == xml::spelled_char(c, false));
    assert(xml::escaped_value(seq![c]) == xml::spelled_char(c, true));
}

proof fn lemma_spelled_in_order(a: Seq<char>, b: Seq<char>, in_attribute: bool)
    ensures
        xml::spelled(a + b, in_attribute) == xml::spelled(a, in_attribute) + xml::spelled(
            b,
            in_attribute,
        ),
    decreases b.len(),
{
    if b.len() == 0 {
        assert(a + b == a);
        assert(xml::spelled(a, in_attribute) + Seq::<char>::empty() == xml::spelled(
            a,
            in_attribute,
        ));
    } else {
        lemma_spelled_in_order(a, b.drop_last(), in_attribute);
        assert((a + b).drop_last() == a + b.drop_last());
        xml::lemma_associative(
            xml::spelled(a, in_attribute),
            xml::spelled(b.drop_last(), in_attribute),
            xml::spelled_char(b.last(), in_attribute),
        );
    }
}

/// Two texts one after the other are escaped one after the other, and nothing is escaped to
/// nothing.
pub proof fn texts_are_escaped_in_order(a: Seq<char>, b: Seq<char>)
    ensures
        xml::escaped(a + b) == xml::escaped(a) + xml::escaped(b),
        xml::escaped_value(a + b) == xml::escaped_value(a) + xml::escaped_value(b),
        xml::escaped(Seq::empty()) == Seq::<char>::empty(),
        xml::escaped_value(Seq::empty()) == Seq::<char>::empty(),
{
    lemma_spelled_in_order(a, b, false);
    lemma_spelled_in_order(a, b, true);
}

proof fn lemma_outer_tags()
    ensures
        xml::opening(2, "paymentDueBy"@) == "\n  <paymentDueBy>"@,
        xml::end_tag("paymentDueBy"@) == "</paymentDueBy>"@,
        xml::opening(2, "parties"@) == "\n  <parties>"@,
        xml::closing(2, "parties"@) == "\n  </parties>"@,
        xml::opening(2, "items"@) == "\n  <items>"@,
        xml::closing(2, "items"@) == "\n  </items>"@,
        xml::opening(2, "notes"@) == "\n  <notes>"@,
        xml::end_tag("notes"@) == "</notes>"@,
        xml::closing(0, "invoice"@) == "\n</invoice>"@,
{
    reveal_strlit("<");
    reveal_strlit(">");
    reveal_strlit("</");
    assert(xml::attributes_text(Seq::empty()) == Seq::<char>::empty());
    assert(xml::opening(2, "paymentDueBy"@) == "\n  <paymentDueBy>"@ && xml::end_tag(
        "paymentDueBy"@,
    ) == "</paymentDueBy>"@) by {
        reveal_strlit("paymentDueBy");
        reveal_strlit("\n  <paymentDueBy>");
        reveal_strlit("</paymentDueBy>");
    }
    assert(xml::opening(2, "parties"@) == "\n  <parties>"@ && xml::closing(2, "parties"@)
        == "\n  </parties>"@) by {
        reveal_strlit("parties");
        reveal_strlit("\n  <parties>");
        reveal_strlit("\n  </parties>");
    }
    assert(xml::opening(2, "items"@) == "\n  <items>"@ && xml::closing(2, "items"@)
        == "\n  </items>"@) by {
        reveal_strlit("items");
        reveal_strlit("\n  <items>");
        reveal_strlit("\n  </items>");
    }
    assert(xml::opening(2, "notes"@) == "\n  <notes>"@ && xml::end_tag("notes"@)
        == "</notes>"@) by {
        reveal_strlit("notes");
        reveal_strlit("\n  <notes>");
        reveal_strlit("</notes>");
    }
    assert(xml::closing(0, "invoice"@) == "\n</invoice>"@) by {
        reveal_strlit("invoice");
        reveal_strlit("\n</invoice>");
    }
}

proof fn lemma_party_tags()
    ensures
        xml::opening(4, "us"@) == "\n    <us>"@,
        xml::closing(4, "us"@) == "\n    </us>"@,
        xml::opening(4, "them"@) == "\n    <them>"@,
        xml::closing(4, "them"@) == "\n    </them>"@,
        xml::opening(6, "name"@) == "\n      <name>"@,
        xml::end_tag("name"@) == "</name>"@,
        xml::opening(6, "address"@) == "\n      <address>"@,
        xml::end_tag("address"@) == "</address>"@,
        xml::opening(6, "email"@) == "\n      <email>"@,
        xml::end_tag("email"@) == "</email>"@,
{
    reveal_strlit("<");
    reveal_strlit(">");
    reveal_strlit("</");
    assert(xml::attributes_text(Seq::empty()) == Seq::<char>::empty());
    assert(xml::opening(4, "us"@) == "\n    <us>"@ && xml::closing(4, "us"@) == "\n    </us>"@) by {
        reveal_strlit("us");
        reveal_strlit("\n    <us>");
        reveal_strlit("\n    </us>");
    }
    assert(xml::opening(4, "them"@) == "\n    <them>"@ && xml::closing(4, "them"@)
        == "\n    </them>"@) by {
        reveal_strlit("them");
        reveal_strlit("\n    <them>");
        reveal_strlit("\n    </them>");
    }
    assert(xml::opening(6, "name"@) == "\n      <name>"@ && xml::end_tag("name"@)
        == "</name>"@) by {
        reveal_strlit("name");
        reveal_strlit("\n      <name>");
        reveal_strlit("</name>");
    }
    assert(xml::opening(6, "address"@) == "\n      <address>"@ && xml::end_tag("address"@)
        == "</address>"@) by {
        reveal_strlit("address");
        reveal_strlit("\n      <address>");
        reveal_strlit("</address>");
    }
    assert(xml::opening(6, "email"@) == "\n      <email>"@ && xml::end_tag("email"@)
        == "</email>"@) by {
        reveal_strlit("email");
        reveal_strlit("\n      <email>");
        reveal_strlit("</email>");
    }
}

proof fn lemma_item_tags()
    ensures
        xml::opening(4, "item"@) == "\n    <item>"@,
        xml::closing(4, "item"@) == "\n    </item>"@,
        xml::opening(6, "date"@) == "\n      <date>"@,
        xml::end_tag("date"@) == "</date>"@,
        xml::opening(6, "summary"@) == "\n      <summary>"@,
        xml::end_tag("summary"@) == "</summary>"@,
        xml::opening(6, "details"@) == "\n      <details>"@,
        xml::end_tag("details"@) == "</details>"@,
        xml::opening(6, "link"@) == "\n      <link>"@,
        xml::end_tag("link"@) == "</link>"@,
        xml::opening(6, "tag"@) == "\n      <tag>"@,
        xml::end_tag("tag"@) == "</tag>"@,
{
    reveal_strlit("<");
    reveal_strlit(">");
    reveal_strlit("</");
    assert(xml::attributes_text(Seq::empty()) == Seq::<char>::empty());
    assert(xml::opening(4, "item"@) == "\n    <item>"@ && xml::closing(4, "item"@)
        == "\n    </item>"@) by {
        reveal_strlit("item");
        reveal_strlit("\n    <item>");
        reveal_strlit("\n    </item>");
    }
    assert(xml::opening(6, "date"@) == "\n      <date>"@ && xml::end_tag("date"@)
        == "</date>"@) by {
        reveal_strlit("date");
        reveal_strlit("\n      <date>");
        reveal_strlit("</date>");
    }
    assert(xml::opening(6, "summary"@) == "\n      <summary>"@ && xml::end_tag("summary"@)
        == "</summary>"@) by {
        reveal_strlit("summary");
        reveal_strlit("\n      <summary>");
        reveal_strlit("</summary>");
    }
    assert(xml::opening(6, "details"@) == "\n      <details>"@ && xml::end_tag("details"@)
        == "</details>"@) by {
        reveal_strlit("details");
        reveal_strlit("\n      <details>");
        reveal_strlit("</details>");
    }
    assert(xml::opening(6, "link"@) == "\n      <link>"@ && xml::end_tag("link"@)
        == "</link>"@) by {
        reveal_strlit("link");
        reveal_strlit("\n      <link>");
        reveal_strlit("</link>");
    }
    assert(xml::opening(6, "tag"@) == "\n      <tag>"@ && xml::end_tag("tag"@) == "</tag>"@) by {
        reveal_strlit("tag");
        reveal_strlit("\n      <tag>");
        reveal_strlit("</tag>");
    }
}

/// The tags of an item are written one by one, in their order, each as an element of its own.
pub proof fn every_tag_is_written(a: Seq<String>, b: Seq<String>)
    ensures
        xml::tag_elements(6, Seq::empty()) == Seq::<char>::empty(),
        a.len() == 1 ==> xml::tag_elements(6, a) == "\n      <tag>"@ + xml::escaped(a[0]@)
            + "</tag>"@,
        xml::tag_elements(6, a + b) == xml::tag_elements(6, a) + xml::tag_elements(6, b),
    decreases b.len(),
{
    lemma_item_tags();
    if a.len() == 1 {
        reveal_with_fuel(xml::tag_elements, 2);
        assert(a.drop_last() == Seq::<String>::empty());
        assert(xml::tag_elements(6, a) == Seq::<char>::empty() + xml::text_element(
            6,
            "tag"@,
            a[0]@,
        ));
        assert(xml::tag_elements(6, a) == xml::text_element(6, "tag"@, a[0]@));
    }
    if b.len() == 0 {
        assert(a + b == a);
        assert(xml::tag_elements(6, a) + Seq::<char>::empty() == xml::tag_elements(6, a));
    } else {
        every_tag_is_written(a, b.drop_last());
        assert((a + b).drop_last() == a + b.drop_last());
        xml::lemma_associative(
            xml::tag_elements(6, a),
            xml::tag_elements(6, b.drop_last()),
            xml::text_element(6, "tag"@, b.last()@),
        );
    }
}

/// The items of an invoice are written one by one, in their order.
pub proof fn every_item_is_written(
    a: Seq<InvoiceItem>,
    b: Seq<InvoiceItem>,
    currency: Seq<char>,
)
    ensures
        xml::item_elements(4, Seq::empty(), currency) == Seq::<char>::empty(),
        a.len() == 1 ==> xml::item_elements(4, a, currency) == xml::item_element(
            4,
            a[0],
            currency,
        ),
        xml::item_elements(4, a + b, currency) == xml::item_elements(4, a, currency)
            + xml::item_elements(4, b, currency),
    decreases b.len(),
{
    if a.len() == 1 {
        reveal_with_fuel(xml::item_elements, 2);
        assert(a.drop_last() == Seq::<InvoiceItem>::empty());
        assert(xml::item_elements(4, a, currency) == Seq::<char>::empty() + xml::item_element(
            4,
            a[0],
            currency,
        ));
        assert(xml::item_elements(4, a, currency) == xml::item_element(4, a[0], currency));
    }
    if b.len() == 0 {
        assert(a + b == a);
        assert(xml::item_elements(4, a, currency) + Seq::<char>::empty() == xml::item_elements(
            4,
            a,
            currency,
        ));
    } else {
        every_item_is_written(a, b.drop_last(), currency);
        assert((a + b).drop_last() == a + b.drop_last());
        xml::lemma_associative(
            xml::item_elements(4, a, currency),
            xml::item_elements(4, b.drop_last(), currency),
            xml::item_element(4, b.last(), currency),
        );
    }
}

proof fn lemma_currency_attribute(name: Seq<char>, currency: Seq<char>)
    ensures
        xml::start_tag(name, seq![("currency"@, currency)]) == seq!['<'] + name
            + " currency=\""@ + xml::escaped_value(currency) + "\">"@,
{
    let attributes = seq![("currency"@, currency)];
    let value = xml::escaped_value(currency);
    reveal_with_fuel(xml::attributes_text, 2);
    reveal_strlit("<");
    reveal_strlit(">");
    reveal_strlit(" ");
    reveal_strlit("=\"");
    reveal_strlit("\"");
    reveal_strlit("currency");
    reveal_strlit(" currency=\"");
    reveal_strlit("\">");
    assert(attributes.drop_last() == Seq::<(Seq<char>, Seq<char>)>::empty());
    assert(xml::attributes_text(attributes) == Seq::<char>::empty() + " "@ + "currency"@ + "=\""@
        + value + "\""@);
    assert(xml::attributes_text(attributes) == " currency=\""@ + value + "\""@);
    assert(xml::start_tag(name, attributes) == seq!['<'] + name + " currency=\""@ + value
        + "\">"@);
}

/// An amount is written as it is; its currency is named where it is not the one of the invoice.
pub proof fn amounts_are_written(money: Money, currency: Seq<char>)
    ensures
        money.currency@ == currency ==> xml::money_element(6, "debit"@, money, currency)
            == "\n      <debit>"@ + xml::escaped(money.value@.text) + "</debit>"@,
        money.currency@ == currency ==> xml::money_element(6, "credit"@, money, currency)
            == "\n      <credit>"@ + xml::escaped(money.value@.text) + "</credit>"@,
        money.currency@ != currency ==> xml::money_element(6, "debit"@, money, currency)
            == "\n      <debit currency=\""@ + xml::escaped_value(money.currency@) + "\">"@
            + xml::escaped(money.value@.text) + "</debit>"@,
        money.currency@ != currency ==> xml::money_element(6, "credit"@, money, currency)
            == "\n      <credit currency=\""@ + xml::escaped_value(money.currency@) + "\">"@
            + xml::escaped(money.value@.text) + "</credit>"@,
{
    let value = xml::escaped_value(money.currency@);
    reveal_strlit("<");
    reveal_strlit(">");
    reveal_strlit("</");
    assert(xml::attributes_text(Seq::empty()) == Seq::<char>::empty());
    lemma_currency_attribute("debit"@, money.currency@);
    lemma_currency_attribute("credit"@, money.currency@);
    assert(xml::opening(6, "debit"@) == "\n      <debit>"@ && xml::end_tag("debit"@)
        == "</debit>"@) by {
        reveal_strlit("debit");
        reveal_strlit("\n      <debit>");
        reveal_strlit("</debit>");
    }
    assert(xml::opening(6, "credit"@) == "\n      <credit>"@ && xml::end_tag("credit"@)
        == "</credit>"@) by {
        reveal_strlit("credit");
        reveal_strlit("\n      <credit>");
        reveal_strlit("</credit>");
    }
    assert(xml::margin(6) + (seq!['<'] + "debit"@ + " currency=\""@ + value + "\">"@)
        == "\n      <debit currency=\""@ + value + "\">"@) by {
        reveal_strlit("debit");
        reveal_strlit(" currency=\"");
        reveal_strlit("\n      <debit currency=\"");
        assert(xml::margin(6) + (seq!['<'] + "debit"@ + " currency=\""@)
            == "\n      <debit currency=\""@);
        let head = seq!['<'] + "debit"@ + " currency=\""@;
        xml::lemma_associative(xml::margin(6), head, value);
        xml::lemma_associative(xml::margin(6), head + value, "\">"@);
    }
    assert(xml::margin(6) + (seq!['<'] + "credit"@ + " currency=\""@ + value + "\">"@)
        == "\n      <credit currency=\""@ + value + "\">"@) by {
        reveal_strlit("credit");
        reveal_strlit(" currency=\"");
        reveal_strlit("\n      <credit currency=\"");
        assert(xml::margin(6) + (seq!['<'] + "credit"@ + " currency=\""@)
            == "\n      <credit currency=\""@);
        let head = seq!['<'] + "credit"@ + " currency=\""@;
        xml::lemma_associative(xml::margin(6), head, value);
        xml::lemma_associative(xml::margin(6), head + value, "\">"@);
    }
}

/// An item is written as its date, its summary, its details and its link where it has them, its
/// tags, its debit, and its credit where it has one.
pub proof fn items_are_written(item: InvoiceItem, currency: Seq<char>)
    ensures
        xml::item_element(4, item, currency) == "\n    <item>"@ + ("\n      <date>"@ + xml::escaped(
            calendar::date_text(item.date@),
        ) + "</date>"@) + ("\n      <summary>"@ + xml::escaped(item.summary@) + "</summary>"@) + (
        match item.details {
            Some(s) => "\n      <details>"@ + xml::escaped(s@) + "</details>"@,
            None => Seq::empty(),
        }) + (match item.link {
            Some(s) => "\n      <link>"@ + xml::escaped(s@) + "</link>"@,
            None => Seq::empty(),
        }) + xml::tag_elements(6, item.tags@) + xml::money_element(
            6,
            "debit"@,
            item.debit,
            currency,
        ) + (match item.credit {
            Some(credit) => xml::money_element(6, "credit"@, credit, currency),
            None => Seq::empty(),
        }) + "\n    </item>"@,
{
    lemma_item_tags();
}

/// A party is written as its name, its address and its mail address.
pub proof fn parties_are_written(party: Party)
    ensures
        xml::party_element(4, "us"@, party) == "\n    <us>"@ + ("\n      <name>"@ + xml::escaped(
            party.name@,
        ) + "</name>"@) + ("\n      <address>"@ + xml::escaped(party.address@) + "</address>"@) + (
        "\n      <email>"@ + xml::escaped(party.email@) + "</email>"@) + "\n    </us>"@,
        xml::party_element(4, "them"@, party) == "\n    <them>"@ + ("\n      <name>"@
            + xml::escaped(party.name@) + "</name>"@) + ("\n      <address>"@ + xml::escaped(
            party.address@,
        ) + "</address>"@) + ("\n      <email>"@ + xml::escaped(party.email@) + "</email>"@)
            + "\n    </them>"@,
{
    lemma_party_tags();
}

proof fn lemma_plain_value(s: Seq<char>)
    requires
        forall|i: int| 0 <= i < s.len() ==> xml::spelled_char(#[trigger] s[i], true) == seq![s[i]],
    ensures
        xml::escaped_value(s) == s,
    decreases s.len(),
{
    if s.len() > 0 {
        assert forall|i: int| 0 <= i < s.drop_last().len() implies xml::spelled_char(
            #[trigger] s.drop_last()[i],
            true,
        ) == seq![s.drop_last()[i]] by {
            assert(xml::spelled_char(s[i], true) == seq![s[i]]);
        }
        lemma_plain_value(s.drop_last());
        assert(xml::spelled_char(s[s.len() - 1], true) == seq![s[s.len() - 1]]);
        assert(s == s.drop_last() + seq![s.last()]);
    } else {
        assert(s == Seq::<char>::empty());
    }
}

proof fn lemma_schema_attribute()
    ensures
        " "@ + "xmlns:xsi"@ + "=\""@ + xml::escaped_value(
            "http://www.w3.org/2001/XMLSchema-instance"@,
        ) + "\""@ == " xmlns:xsi=\"http://www.w3.org/2001/XMLSchema-instance\""@,
{
    reveal_strlit("http://www.w3.org/2001/XMLSchema-instance");
    lemma_plain_value("http://www.w3.org/2001/XMLSchema-instance"@);
    reveal_strlit(" ");
    reveal_strlit("xmlns:xsi");
    reveal_strlit("=\"");
    reveal_strlit("\"");
    reveal_strlit(" xmlns:xsi=\"http://www.w3.org/2001/XMLSchema-instance\"");
}

proof fn lemma_space_attribute()
    ensures
        " "@ + "xmlns"@ + "=\""@ + xml::escaped_value("https://hpkns.uk/accounting"@) + "\""@
            == " xmlns=\"https://hpkns.uk/accounting\""@,
{
    reveal_strlit("https://hpkns.uk/accounting");
    lemma_plain_value("https://hpkns.uk/accounting"@);
    reveal_strlit(" ");
    reveal_strlit("xmlns");
    reveal_strlit("=\"");
    reveal_strlit("\"");
    reveal_strlit(" xmlns=\"https://hpkns.uk/accounting\"");
}

proof fn lemma_attribute(
    before: Seq<(Seq<char>, Seq<char>)>,
    key: Seq<char>,
    value: Seq<char>,
)
    ensures
        xml::attributes_text(before.push((key, value))) == xml::attributes_text(before) + (" "@
            + key + "=\""@ + xml::escaped_value(value) + "\""@),
{
    let head = xml::attributes_text(before);
    let inner = xml::escaped_value(value);
    assert(before.push((key, value)).drop_last() == before);
    assert(head + " "@ + key + "=\""@ + inner + "\""@ == head + (" "@ + key + "=\""@ + inner
        + "\""@));
}

proof fn lemma_head_in_order(
    p: Seq<Seq<char>>,
    key: Seq<char>,
    value: Seq<char>,
    quote: Seq<char>,
    close: Seq<char>,
)
    requires
        p.len() == 6,
    ensures
        p[0] + p[1] + (p[2] + p[3] + (p[4] + p[5] + (key + value + quote)) + close) == p[0] + (p[1]
            + p[2] + p[3]) + p[4] + p[5] + key + value + (quote + close),
{
}

/// A document begins with the declaration and the tag of the invoice, which names the currency.
pub proof fn documents_begin_with_the_currency(invoice: Invoice)
    ensures
        xml::document_head(invoice) == "<?xml version=\"1.0\" encoding=\"UTF-8\"?>"@
            + "\n<invoice"@ + " xmlns:xsi=\"http://www.w3.org/2001/XMLSchema-instance\""@
            + " xmlns=\"https://hpkns.uk/accounting\""@ + " defaultCurrency=\""@
            + xml::escaped_value(invoice.currency@) + "\">"@,
{
    let declaration = "<?xml version=\"1.0\" encoding=\"UTF-8\"?>"@;
    let schema = " xmlns:xsi=\"http://www.w3.org/2001/XMLSchema-instance\""@;
    let space = " xmlns=\"https://hpkns.uk/accounting\""@;
    let currency = xml::escaped_value(invoice.currency@);
    let all = xml::root_attributes(invoice.currency@);
    let none = Seq::<(Seq<char>, Seq<char>)>::empty();
    let one = none.push(("xmlns:xsi"@, "http://www.w3.org/2001/XMLSchema-instance"@));
    let two = one.push(("xmlns"@, "https://hpkns.uk/accounting"@));
    lemma_attribute(none, "xmlns:xsi"@, "http://www.w3.org/2001/XMLSchema-instance"@);
    lemma_attribute(one, "xmlns"@, "https://hpkns.uk/accounting"@);
    lemma_attribute(two, "defaultCurrency"@, invoice.currency@);
    lemma_schema_attribute();
    lemma_space_attribute();
    assert(all == two.push(("defaultCurrency"@, invoice.currency@)));
    assert(xml::attributes_text(none) == Seq::<char>::empty());
    assert(xml::attributes_text(one) == schema);
    assert(" "@ + "defaultCurrency"@ + "=\""@ == " defaultCurrency=\""@) by {
        reveal_strlit(" ");
        reveal_strlit("defaultCurrency");
        reveal_strlit("=\"");
        reveal_strlit(" defaultCurrency=\"");
    }
    let attributes = schema + space + (" defaultCurrency=\""@ + currency + "\""@);
    assert(xml::attributes_text(all) == attributes);
    assert(xml::margin(0) + "<"@ + "invoice"@ == "\n<invoice"@) by {
        reveal_strlit("<");
        reveal_strlit("invoice");
        reveal_strlit("\n<invoice");
    }
    assert("\""@ + ">"@ == "\">"@) by {
        reveal_strlit("\"");
        reveal_strlit(">");
        reveal_strlit("\">");
    }
    lemma_head_in_order(
        seq![declaration, xml::margin(0), "<"@, "invoice"@, schema, space],
        " defaultCurrency=\""@,
        currency,
        "\""@,
        ">"@,
    );
}

/// A document is its head, the due date, the parties, the items and the notes where there are any,
/// in this order, and nothing else.
pub proof fn documents_are_written(invoice: Invoice)
    ensures
        xml::document(invoice) == xml::document_head(invoice) + ("\n  <paymentDueBy>"@
            + xml::escaped(calendar::date_text(invoice.payment_due_by@)) + "</paymentDueBy>"@)
            + "\n  <parties>"@ + xml::party_element(4, "us"@, invoice.supplier)
            + xml::party_element(4, "them"@, invoice.customer) + "\n  </parties>"@
            + "\n  <items>"@ + xml::item_elements(4, invoice.items@, invoice.currency@)
            + "\n  </items>"@ + (match invoice.notes {
            Some(s) => "\n  <notes>"@ + xml::escaped(s@) + "</notes>"@,
            None => Seq::empty(),
        }) + "\n</invoice>"@,
{
    lemma_outer_tags();
}

/// The part stands somewhere in the text.
pub open spec fn holds(s: Seq<char>, part: Seq<char>) -> bool {
    exists|before: Seq<char>, after: Seq<char>| s == #[trigger] (before + part + after)
}

proof fn lemma_holds_itself(part: Seq<char>)
    ensures
        holds(part, part),
{
    let none = Seq::<char>::empty();
    assert(part == none + part + none);
}

proof fn lemma_holds_beside(left: Seq<char>, s: Seq<char>, right: Seq<char>, part: Seq<char>)
    requires
        holds(s, part),
    ensures
        holds(left + s + right, part),
        holds(left + s, part),
        holds(s + right, part),
{
    let (before, after) = choose|before: Seq<char>, after: Seq<char>|
        s == #[trigger] (before + part + after);
    assert(left + s + right == (left + before) + part + (after + right));
    assert(left + s == (left + before) + part + after);
    assert(s + right == before + part + (after + right));
}

proof fn lemma_tags_hold(tags: Seq<String>, k: int)
    requires
        0 <= k < tags.len(),
    ensures
        holds(
            xml::tag_elements(6, tags),
            "\n      <tag>"@ + xml::escaped(tags[k]@) + "</tag>"@,
        ),
{
    let part = "\n      <tag>"@ + xml::escaped(tags[k]@) + "</tag>"@;
    let before = tags.take(k);
    let one = seq![tags[k]];
    let after = tags.skip(k + 1);
    assert(tags == before + one + after);
    every_tag_is_written(before + one, after);
    every_tag_is_written(before, one);
    every_tag_is_written(one, after);
    lemma_holds_itself(part);
    lemma_holds_beside(xml::tag_elements(6, before), part, xml::tag_elements(6, after), part);
}

proof fn lemma_item_holds_tag(item: InvoiceItem, currency: Seq<char>, k: int)
    requires
        0 <= k < item.tags@.len(),
    ensures
        holds(
            xml::item_element(4, item, currency),
            "\n      <tag>"@ + xml::escaped(item.tags@[k]@) + "</tag>"@,
        ),
{
    let part = "\n      <tag>"@ + xml::escaped(item.tags@[k]@) + "</tag>"@;
    let tags = xml::tag_elements(6, item.tags@);
    let head = xml::opening(4, "item"@) + xml::text_element(
        6,
        "date"@,
        calendar::date_text(item.date@),
    ) + xml::text_element(6, "summary"@, item.summary@) + xml::optional_element(
        6,
        "details"@,
        item.details,
    ) + xml::optional_element(6, "link"@, item.link);
    let debit = xml::money_element(6, "debit"@, item.debit, currency);
    let credit = xml::credit_element(6, item.credit, currency);
    let close = xml::closing(4, "item"@);
    lemma_tags_hold(item.tags@, k);
    lemma_holds_beside(head, tags, debit, part);
    lemma_holds_beside(head, head + tags + debit, credit, part);
    lemma_holds_beside(head, head + tags + debit + credit, close, part);
}

/// Every tag of every item stands in the document, as an element of its own.
pub proof fn every_tag_stands_in_the_document(invoice: Invoice, n: int, k: int)
    requires
        0 <= n < invoice.items@.len(),
        0 <= k < invoice.items@[n].tags@.len(),
    ensures
        holds(
            xml::document(invoice),
            "\n      <tag>"@ + xml::escaped(invoice.items@[n].tags@[k]@) + "</tag>"@,
        ),
{
    let items = invoice.items@;
    let currency = invoice.currency@;
    let part = "\n      <tag>"@ + xml::escaped(items[n].tags@[k]@) + "</tag>"@;
    let before = items.take(n);
    let one = seq![items[n]];
    let after = items.skip(n + 1);
    assert(items == before + one + after);
    every_item_is_written(before + one, after, currency);
    every_item_is_written(before, one, currency);
    every_item_is_written(one, after, currency);
    lemma_item_holds_tag(items[n], currency, k);
    lemma_holds_beside(
        xml::item_elements(4, before, currency),
        xml::item_element(4, items[n], currency),
        xml::item_elements(4, after, currency),
        part,
    );
    let list = xml::item_elements(4, items, currency);
    assert(holds(list, part));
    let head = xml::document_head(invoice) + xml::text_element(
        2,
        "paymentDueBy"@,
        calendar::date_text(invoice.payment_due_by@),
    ) + xml::opening(2, "parties"@) + xml::party_element(4, "us"@, invoice.supplier)
        + xml::party_element(4, "them"@, invoice.customer) + xml::closing(2, "parties"@)
        + xml::opening(2, "items"@);
    let close = xml::closing(2, "items"@);
    let notes = xml::optional_element(2, "notes"@, invoice.notes);
    let end = xml::closing(0, "invoice"@);
    lemma_holds_beside(head, list, close, part);
    lemma_holds_beside(head, head + list + close, notes, part);
    lemma_holds_beside(head, head + list + close + notes, end, part);
}

/// Lists of tags that are written the same are the same, in number, in order and in text.
pub proof fn written_tags_tell_the_tags(a: Seq<String>, b: Seq<String>)
    requires
        xml::tag_elements(6, a) == xml::tag_elements(6, b),
    ensures
        a.len() == b.len(),
        forall|k: int| 0 <= k < a.len() ==> (#[trigger] a[k])@ == b[k]@,
    decreases a.len(),
{
    lemma_item_tags();
    reveal_strlit("\n      <tag>");
    if a.len() > 0 {
        lemma_first_tag(a);
    }
    if b.len() > 0 {
        lemma_first_tag(b);
    }
    if a.len() > 0 && b.len() > 0 {
        lemma_element_is_told(
            6,
            "tag"@,
            a[0]@,
            xml::tag_elements(6, a.drop_first()),
            b[0]@,
            xml::tag_elements(6, b.drop_first()),
        );
        written_tags_tell_the_tags(a.drop_first(), b.drop_first());
        assert forall|k: int| 0 <= k < a.len() implies (#[trigger] a[k])@ == b[k]@ by {
            if k > 0 {
                assert(a.drop_first()[k - 1]@ == b.drop_first()[k - 1]@);
            }
        }
    } else {
        assert(xml::tag_elements(6, a).len() == xml::tag_elements(6, b).len());
    }
}

proof fn lemma_first_tag(tags: Seq<String>)
    requires
        tags.len() > 0,
    ensures
        xml::tag_elements(6, tags) == xml::text_element(6, "tag"@, tags[0]@) + xml::tag_elements(
            6,
            tags.drop_first(),
        ),
        xml::tag_elements(6, tags).len() > 0,
{
    let one = seq![tags[0]];
    assert(tags == one + tags.drop_first());
    every_tag_is_written(one, tags.drop_first());
    lemma_item_tags();
    reveal_strlit("\n      <tag>");
}

proof fn lemma_cut(a: Seq<char>, x: Seq<char>, y: Seq<char>)
    requires
        a + x == a + y,
    ensures
        x == y,
{
    assert((a + x).skip(a.len() as int) == x);
    assert((a + y).skip(a.len() as int) == y);
}

/// A text without tags, up to the next tag, is told from what follows.
proof fn lemma_cut_text(a: Seq<char>, x: Seq<char>, b: Seq<char>, y: Seq<char>)
    requires
        readback::has_no_tag(a),
        readback::has_no_tag(b),
        x.len() > 0,
        x[0] == '<',
        y.len() > 0,
        y[0] == '<',
        a + x == b + y,
    ensures
        a == b,
        x == y,
{
    if a.len() < b.len() {
        assert((a + x)[a.len() as int] == '<');
        assert((b + y)[a.len() as int] == b[a.len() as int]);
        assert(b.contains(b[a.len() as int]));
    }
    if b.len() < a.len() {
        assert((b + y)[b.len() as int] == '<');
        assert((a + x)[b.len() as int] == a[b.len() as int]);
        assert(a.contains(a[b.len() as int]));
    }
    assert((a + x).take(a.len() as int) == a);
    assert((b + y).take(b.len() as int) == b);
    assert((a + x).skip(a.len() as int) == x);
    assert((b + y).skip(b.len() as int) == y);
}

/// The text of an element, and what follows it, are told from what is written.
proof fn lemma_element_is_told(
    spaces: nat,
    name: Seq<char>,
    u: Seq<char>,
    x: Seq<char>,
    v: Seq<char>,
    y: Seq<char>,
)
    requires
        xml::text_element(spaces, name, u) + x == xml::text_element(spaces, name, v) + y,
    ensures
        u == v,
        x == y,
{
    let open = xml::opening(spaces, name);
    let close = xml::end_tag(name);
    let first = xml::escaped(u);
    let second = xml::escaped(v);
    reveal_strlit("</");
    assert(open + first + close + x == open + (first + (close + x)));
    assert(open + second + close + y == open + (second + (close + y)));
    lemma_cut(open, first + (close + x), second + (close + y));
    readback::escaped_text_has_no_tag(u);
    readback::escaped_text_has_no_tag(v);
    lemma_cut_text(first, close + x, second, close + y);
    lemma_cut(close, x, y);
    readback::escaping_loses_nothing(u, v);
}

} // verus!
