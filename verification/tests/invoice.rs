use railway_santinvoice::calendar::Date;
use railway_santinvoice::config::normalize_env_value;
use railway_santinvoice::config::Config;
use railway_santinvoice::config::InvoiceConfig;
use railway_santinvoice::config::OidcConfig;
use railway_santinvoice::config::RailwayConfig;
use railway_santinvoice::config::SantInvoiceConfig;
use railway_santinvoice::models::Amount;
use railway_santinvoice::models::Invoice;
use railway_santinvoice::models::InvoiceItem;
use railway_santinvoice::models::Money;
use railway_santinvoice::models::Party;
use railway_santinvoice::models::ProjectBilling;
use railway_santinvoice::models::Sign;
use railway_santinvoice::xml::build_invoice_xml;
use railway_santinvoice::xml::find_xml_value;

fn amount(value: f64) -> Amount {
    let sign = if value > 0.0 {
        Sign::Positive
    } else if value < 0.0 {
        Sign::Negative
    } else if value == 0.0 {
        Sign::Zero
    } else {
        Sign::Undefined
    };
    let rounded = (value * 100.0).round() / 100.0;
    Amount::new(sign, format!("{rounded:.2}")).unwrap()
}

fn config() -> Config {
    Config {
        railway: RailwayConfig {
            graphql_url: "https://railway.example/graphql".to_string(),
            token: "token".to_string(),
            workspace_id: "workspace".to_string(),
            project_id: "project".to_string(),
            project_name: "Project".to_string(),
            currency: "GBP".to_string(),
        },
        oidc: OidcConfig {
            token_url: "https://oidc.example/token".to_string(),
            client_id: "client".to_string(),
            client_secret: "secret".to_string(),
            scope: None,
            audience: None,
        },
        santinvoice: SantInvoiceConfig {
            base_url: "https://santinvoice.example".to_string(),
        },
        invoice: InvoiceConfig {
            supplier_name: "Supplier".to_string(),
            supplier_address: "Supplier address".to_string(),
            supplier_email: "supplier@example.com".to_string(),
            customer_name: "Customer".to_string(),
            customer_address: "Customer address".to_string(),
            customer_email: "customer@example.com".to_string(),
            payment_due_by: Date::from_ymd_opt(2026, 9, 30).unwrap(),
            notes: None,
            service_summary: "Railway billing".to_string(),
            service_details: "Usage".to_string(),
            idempotency_prefix: "test".to_string(),
        },
        pdf_email: None,
    }
}

fn billing(value: f64) -> ProjectBilling {
    ProjectBilling {
        project_id: "project".to_string(),
        project_name: "Project".to_string(),
        amount: Money {
            currency: "USD".to_string(),
            value: amount(value),
        },
        billing_from: Date::from_ymd_opt(2026, 8, 1).unwrap(),
        billing_to: Date::from_ymd_opt(2026, 8, 31).unwrap(),
    }
}

fn sample() -> Invoice {
    Invoice {
        idempotency_key: "test-key".to_string(),
        payment_due_by: Date::from_ymd_opt(2026, 1, 20).unwrap(),
        currency: "GBP".to_string(),
        supplier: Party {
            name: "Supplier".to_string(),
            address: "1 Main Street".to_string(),
            email: "supplier@example.com".to_string(),
        },
        customer: Party {
            name: "Customer".to_string(),
            address: "2 High Street".to_string(),
            email: "customer@example.com".to_string(),
        },
        items: vec![InvoiceItem {
            date: Date::from_ymd_opt(2025, 12, 31).unwrap(),
            summary: "Railway billing".to_string(),
            details: Some("Summary details".to_string()),
            link: None,
            tags: vec!["railway".to_string()],
            debit: Money {
                currency: "GBP".to_string(),
                value: amount(12.345),
            },
            credit: None,
        }],
        notes: Some("Please pay promptly".to_string()),
    }
}

#[test]
fn normalize_env_value_strips_matching_quotes() {
    assert_eq!(
        normalize_env_value("\"https://backboard.railway.com/graphql/v2\""),
        "https://backboard.railway.com/graphql/v2"
    );
    assert_eq!(
        normalize_env_value("'https://example.com'"),
        "https://example.com"
    );
    assert_eq!(
        normalize_env_value("https://example.com"),
        "https://example.com"
    );
}

#[test]
fn invoice_xml_contains_expected_elements() {
    let invoice = sample();

    let xml = build_invoice_xml(&invoice).unwrap();
    assert!(xml.contains("<invoice"));
    assert!(xml.contains("<paymentDueBy>2026-01-20</paymentDueBy>"));
    assert!(xml.contains("<summary>Railway billing</summary>"));
    assert!(xml.contains("<debit>12.35</debit>"));
    assert!(xml.contains("<notes>Please pay promptly</notes>"));
}

#[test]
fn invoice_xml_is_laid_out_by_its_nesting() {
    let xml = build_invoice_xml(&sample()).unwrap();
    let expected = "<?xml version=\"1.0\" encoding=\"UTF-8\"?>
<invoice xmlns:xsi=\"http://www.w3.org/2001/XMLSchema-instance\" xmlns=\"https://hpkns.uk/accounting\" defaultCurrency=\"GBP\">
  <paymentDueBy>2026-01-20</paymentDueBy>
  <parties>
    <us>
      <name>Supplier</name>
      <address>1 Main Street</address>
      <email>supplier@example.com</email>
    </us>
    <them>
      <name>Customer</name>
      <address>2 High Street</address>
      <email>customer@example.com</email>
    </them>
  </parties>
  <items>
    <item>
      <date>2025-12-31</date>
      <summary>Railway billing</summary>
      <details>Summary details</details>
      <tag>railway</tag>
      <debit>12.35</debit>
    </item>
  </items>
  <notes>Please pay promptly</notes>
</invoice>";
    assert_eq!(xml, expected);
}

#[test]
fn xml_value_lookup_extracts_invoice_number() {
    let body = "<invoiceResponse><invoiceNumber>INV-123</invoiceNumber></invoiceResponse>";
    assert_eq!(
        find_xml_value(body, "invoiceNumber").as_deref(),
        Some("INV-123")
    );
}

#[test]
fn invoice_currency_matches_the_railway_billing_amount() {
    let config = config();
    let billing = billing(12.34);

    let invoice = Invoice::from_billing(&config, &billing, "key".to_string()).unwrap();

    assert_eq!(invoice.currency, "USD");
    assert_eq!(invoice.items[0].debit.currency, "USD");
}

#[test]
fn only_amounts_above_zero_are_invoiced() {
    let message = ["Railway billing amount must be greater than zero"];
    for value in [0.0, -0.0, -0.001, -12.0, f64::NEG_INFINITY] {
        let failure = Invoice::from_billing(&config(), &billing(value), "key".to_string());
        assert_eq!(failure.unwrap_err().chain, message, "{value}");
    }
    for value in [0.001, 1.0, f64::INFINITY, f64::NAN] {
        assert!(Invoice::from_billing(&config(), &billing(value), "key".to_string()).is_ok());
    }
}

#[test]
fn the_invoice_has_one_item_for_the_period() {
    let invoice = Invoice::from_billing(&config(), &billing(12.34), "key".to_string()).unwrap();
    assert_eq!(invoice.idempotency_key, "key");
    assert_eq!(invoice.payment_due_by.to_string(), "2026-09-30");
    assert_eq!(invoice.supplier.name, "Supplier");
    assert_eq!(invoice.supplier.address, "Supplier address");
    assert_eq!(invoice.supplier.email, "supplier@example.com");
    assert_eq!(invoice.customer.name, "Customer");
    assert_eq!(invoice.customer.address, "Customer address");
    assert_eq!(invoice.customer.email, "customer@example.com");
    assert_eq!(invoice.notes, None);
    assert_eq!(invoice.items.len(), 1);
    let item = &invoice.items[0];
    assert_eq!(item.date.to_string(), "2026-08-31");
    assert_eq!(item.summary, "Railway billing");
    assert_eq!(
        item.details.as_deref(),
        Some("Usage\nProject: Project\nProject ID: project\nPeriod: 2026-08-01 to 2026-08-31")
    );
    assert_eq!(item.link, None);
    assert_eq!(
        item.tags,
        [
            "railway",
            "railway-project=project",
            "billing-period=2026-08-01..2026-08-31"
        ]
    );
    assert_eq!(item.debit.value.text(), "12.34");
    assert!(item.credit.is_none());
}

#[test]
fn the_document_tells_the_due_date_and_the_amount() {
    let invoice = Invoice::from_billing(&config(), &billing(12.34), "key".to_string()).unwrap();
    let xml = build_invoice_xml(&invoice).unwrap();
    assert_eq!(
        find_xml_value(&xml, "paymentDueBy").as_deref(),
        Some("2026-09-30")
    );
    assert_eq!(find_xml_value(&xml, "debit").as_deref(), Some("12.34"));
    assert!(xml.contains(" defaultCurrency=\"USD\">"));
    assert!(!xml.contains(" currency="));
    let other = Invoice::from_billing(&config(), &billing(12.34), "other".to_string()).unwrap();
    assert_eq!(build_invoice_xml(&other).unwrap(), xml);
}

#[test]
fn amounts_in_another_currency_name_it() {
    let mut invoice = sample();
    invoice.items[0].debit.currency = "E&R".to_string();
    invoice.items[0].credit = Some(Money {
        currency: "USD".to_string(),
        value: amount(0.5),
    });
    let xml = build_invoice_xml(&invoice).unwrap();
    assert!(xml.contains("\n      <debit currency=\"E&amp;R\">12.35</debit>\n"));
    assert!(xml.contains("\n      <credit currency=\"USD\">0.50</credit>\n    </item>"));
}

#[test]
fn texts_are_escaped() {
    let mut invoice = sample();
    invoice.notes = Some("<a href=\"x\">'&'</a>\r\n\ttab ]]> ü".to_string());
    invoice.currency = "a\"<>&'\r\n\tb".to_string();
    invoice.items[0].link = Some("https://x.example/?a=1&b=2".to_string());
    let xml = build_invoice_xml(&invoice).unwrap();
    assert!(xml.contains(
        "<notes>&lt;a href=&quot;x&quot;&gt;&apos;&amp;&apos;&lt;/a&gt;&#13;\n\ttab ]]&gt; ü</notes>"
    ));
    assert!(xml.contains("defaultCurrency=\"a&quot;&lt;&gt;&amp;&apos;&#13;&#10;&#9;b\">"));
    assert!(xml.contains("<link>https://x.example/?a=1&amp;b=2</link>"));
}

#[test]
fn empty_parts_of_an_invoice() {
    let mut invoice = sample();
    invoice.notes = None;
    invoice.items.clear();
    invoice.supplier.name = String::new();
    let xml = build_invoice_xml(&invoice).unwrap();
    assert!(xml.ends_with("  </parties>\n  <items>\n  </items>\n</invoice>"));
    assert!(xml.contains("<us>\n      <name></name>\n"));
}

#[test]
fn lookups_take_the_first_plain_element() {
    let find = |body: &str| find_xml_value(body, "n");
    assert_eq!(find("<n> 1 </n><n>2</n>").as_deref(), Some("1"));
    assert_eq!(find("<n a='1'>0</n><n>2</n>").as_deref(), Some("2"));
    assert_eq!(find("</n><n>\n\u{A0}ü\t</n>").as_deref(), Some("ü"));
    assert_eq!(find("<n><n>x</n></n>").as_deref(), Some("<n>x"));
    assert_eq!(find("<n></n>").as_deref(), Some(""));
    assert_eq!(find("<n>1"), None);
    assert_eq!(find("1</n>"), None);
    assert_eq!(find("<N>1</N>"), None);
    assert_eq!(find(""), None);
    assert_eq!(find("  \n<x><n>1</n></x> ").as_deref(), Some("1"));
}

#[test]
fn the_debit_of_the_first_item_is_found() {
    let mut invoice = sample();
    invoice.items[0].summary = "<debit>1.00</debit>".to_string();
    invoice.items[0].tags.push("</tag><debit>2.00</debit>".to_string());
    invoice.supplier.name = "<paymentDueBy>2000-01-01</paymentDueBy>".to_string();
    let mut second = sample().items.remove(0);
    second.debit.value = amount(99.0);
    invoice.items.push(second);
    let xml = build_invoice_xml(&invoice).unwrap();
    assert_eq!(find_xml_value(&xml, "debit").as_deref(), Some("12.35"));
    assert_eq!(
        find_xml_value(&xml, "paymentDueBy").as_deref(),
        Some("2026-01-20")
    );
}

#[test]
fn values_of_attributes_that_differ_are_escaped_differently() {
    let values = ["", "a", "&", "&amp;", "\n", "&#10;", "\t", "&#9;", "\r", "\"", "'", "<", ">"];
    let documents: Vec<String> = values
        .iter()
        .map(|value| {
            let mut invoice = sample();
            invoice.currency = value.to_string();
            invoice.items.clear();
            build_invoice_xml(&invoice).unwrap()
        })
        .collect();
    for i in 0..documents.len() {
        for j in 0..i {
            assert_ne!(documents[i], documents[j]);
        }
    }
}

#[test]
fn every_number_is_an_amount() {
    let values = [
        0.0,
        -0.0,
        0.004,
        0.005,
        -0.004,
        1.0,
        -1.5,
        12.345,
        1e15,
        1e300,
        1e307,
        f64::MIN_POSITIVE,
        f64::MAX,
        f64::MIN,
        f64::INFINITY,
        f64::NEG_INFINITY,
        f64::NAN,
    ];
    for value in values {
        let rounded = (value * 100.0).round() / 100.0;
        assert_eq!(amount(value).text(), format!("{rounded:.2}"));
    }
    assert_eq!(amount(0.004).text(), "0.00");
    assert_eq!(amount(0.004).sign(), Sign::Positive);
    assert_eq!(amount(-0.004).text(), "-0.00");
    assert_eq!(amount(-0.004).sign(), Sign::Negative);
    assert_eq!(amount(f64::MAX).text(), "inf");
}

#[test]
fn other_texts_are_no_amounts() {
    let new = |sign: Sign, text: &str| Amount::new(sign, text.to_string());
    for text in [
        "", "-", "1", "1.0", "1.000", ".00", "-.00", "1,00", "<b>", " 1.00", "1.00 ", "+1.00",
        "--1.00", "1e3", "nan", "-NaN", "Inf", "infinity", "1.0a", "a.00", "٣.00",
    ] {
        for sign in [
            Sign::Negative,
            Sign::Zero,
            Sign::Positive,
            Sign::Undefined,
        ] {
            assert!(new(sign, text).is_none(), "{text:?}");
        }
    }
    assert!(new(Sign::Positive, "-1.00").is_none());
    assert!(new(Sign::Negative, "1.00").is_none());
    assert!(new(Sign::Zero, "0.01").is_none());
    assert!(new(Sign::Positive, "NaN").is_none());
    assert!(new(Sign::Undefined, "1.00").is_none());
    assert!(new(Sign::Negative, "-inf").is_some());
    assert!(new(Sign::Zero, "-0.00").is_some());
    assert!(new(Sign::Undefined, "NaN").is_some());
}

#[test]
fn any_amount_is_found_as_it_is_written() {
    for value in [0.5, 30.4, -7.0, 1e20, f64::NAN, f64::NEG_INFINITY] {
        let mut invoice = sample();
        invoice.items[0].debit.value = amount(value);
        let xml = build_invoice_xml(&invoice).unwrap();
        assert_eq!(
            find_xml_value(&xml, "debit").as_deref(),
            Some(amount(value).text())
        );
    }
}
