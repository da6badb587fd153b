use railway_santinvoice::calendar::Date;
use railway_santinvoice::config::check_absolute_url;
use railway_santinvoice::config::check_date;
use railway_santinvoice::config::default_due_date;
use railway_santinvoice::config::due_date_from;
use railway_santinvoice::config::env_flag;
use railway_santinvoice::config::env_flag_default;
use railway_santinvoice::config::env_or;
use railway_santinvoice::config::normalize_env_value;
use railway_santinvoice::config::optional_env;
use railway_santinvoice::config::parse_date_env;
use railway_santinvoice::config::parse_u16_env;
use railway_santinvoice::config::required_absolute_url;
use railway_santinvoice::config::required_env;
use railway_santinvoice::config::Config;
use railway_santinvoice::config::Environment;

const REQUIRED: [(&str, &str); 15] = [
    ("RAILWAY_GRAPHQL_URL", "https://backboard.railway.com/graphql/v2"),
    ("RAILWAY_TOKEN", "railway-token"),
    ("RAILWAY_WORKSPACE_ID", "workspace"),
    ("RAILWAY_PROJECT_ID", "project"),
    ("RAILWAY_TARGET_PROJECT_NAME", "Shop"),
    ("OIDC_TOKEN_URL", "https://oidc.example/token"),
    ("OIDC_CLIENT_ID", "client"),
    ("OIDC_CLIENT_SECRET", "secret"),
    ("SANTINVOICE_BASE_URL", "https://santinvoice.example/api"),
    ("INVOICE_SUPPLIER_NAME", "Supplier"),
    ("INVOICE_SUPPLIER_ADDRESS", "1 Main Street"),
    ("INVOICE_SUPPLIER_EMAIL", "supplier@example.com"),
    ("INVOICE_CUSTOMER_NAME", "Customer"),
    ("INVOICE_CUSTOMER_ADDRESS", "2 High Street"),
    ("INVOICE_CUSTOMER_EMAIL", "customer@example.com"),
];

const MAIL: [(&str, &str); 6] = [
    ("PDF_EMAIL_ENABLED", "true"),
    ("PDF_EMAIL_RECIPIENT", "accounts@example.com"),
    ("SMTP_FROM_EMAIL", "billing@example.com"),
    ("SMTP_HOST", "smtp.example.com"),
    ("SMTP_USERNAME", "mailer"),
    ("SMTP_PASSWORD", "hunter"),
];

fn environment(lists: &[&[(&str, &str)]]) -> Environment {
    let vars = lists
        .iter()
        .flat_map(|list| list.iter())
        .map(|(name, value)| (name.to_string(), Ok(value.to_string())))
        .collect();
    Environment { vars }
}

fn without(env: Environment, name: &str) -> Environment {
    let vars = env.vars.into_iter().filter(|v| v.0 != name).collect();
    Environment { vars }
}

fn today() -> Date {
    Date::from_ymd_opt(2026, 9, 24).unwrap()
}

#[test]
fn values_lose_white_space_and_one_pair_of_quotes() {
    assert_eq!(normalize_env_value("  ' x '  "), " x ");
    assert_eq!(normalize_env_value("\"\"x\"\""), "\"x\"");
    assert_eq!(normalize_env_value("\"x'"), "\"x'");
    assert_eq!(normalize_env_value("\""), "\"");
    assert_eq!(normalize_env_value("''"), "");
    assert_eq!(normalize_env_value("é"), "é");
    assert_eq!(normalize_env_value("\u{A0}\"ü\"\n"), "ü");
    assert_eq!(normalize_env_value(""), "");
}

#[test]
fn the_first_of_two_variables_counts() {
    let env = environment(&[&[("A", "1"), ("A", "2"), ("B", " 'b' ")]]);
    assert_eq!(optional_env(&env, "A").as_deref(), Some("1"));
    assert_eq!(optional_env(&env, "B").as_deref(), Some("b"));
    assert_eq!(optional_env(&env, "C"), None);
    assert_eq!(env_or(&env, "B", "c".to_string()), "b");
    assert_eq!(env_or(&env, "C", "c".to_string()), "c");
}

#[test]
fn missing_variables_are_reported() {
    let env = environment(&[]);
    assert_eq!(
        required_env(&env, "A").unwrap_err().chain,
        [
            "missing required environment variable A",
            "environment variable not found"
        ]
    );
    let env = Environment {
        vars: vec![("A".to_string(), Err("not text".to_string()))],
    };
    assert_eq!(
        required_env(&env, "A").unwrap_err().chain,
        ["missing required environment variable A", "not text"]
    );
    assert_eq!(optional_env(&env, "A"), None);
}

#[test]
fn urls_must_be_absolute_http_urls_with_a_host() {
    let url = |value: &str| required_absolute_url(&environment(&[&[("U", value)]]), "U");
    assert_eq!(url("https://x.example/a").unwrap(), "https://x.example/a");
    assert_eq!(url("\"http://x.example\"").unwrap(), "http://x.example");
    assert_eq!(url("HTTPS://x.example").unwrap(), "HTTPS://x.example");
    assert_eq!(
        url("/relative").unwrap_err().chain,
        [
            "U must be an absolute URL, got \"/relative\"",
            "relative URL without a base"
        ]
    );
    assert_eq!(
        url("ftp://x.example").unwrap_err().chain,
        ["U must use http or https, got \"ftp\""]
    );
    assert_eq!(
        url("mailto:a@b.example").unwrap_err().chain,
        ["U must use http or https, got \"mailto\""]
    );
    assert_eq!(
        url("https://").unwrap_err().chain,
        ["U must be an absolute URL, got \"https://\"", "empty host"]
    );
    assert_eq!(
        url("a\tb\"").unwrap_err().chain[0],
        "U must be an absolute URL, got \"a\\tb\\\"\""
    );
    let missing = required_absolute_url(&environment(&[]), "U").unwrap_err();
    assert_eq!(missing.chain[0], "missing required environment variable U");
}

#[test]
fn url_checks_go_by_the_reading() {
    let check = |reading| check_absolute_url("U", "v".to_string(), reading);
    let host = || Some("h".to_string());
    assert_eq!(check(Ok(("http".to_string(), host()))).unwrap(), "v");
    assert_eq!(check(Ok(("https".to_string(), host()))).unwrap(), "v");
    assert_eq!(
        check(Ok(("https".to_string(), None))).unwrap_err().chain,
        ["U must include a host, got \"v\""]
    );
    assert_eq!(
        check(Ok(("ws".to_string(), None))).unwrap_err().chain,
        ["U must use http or https, got \"ws\""]
    );
    assert_eq!(
        check(Err("bad".to_string())).unwrap_err().chain,
        ["U must be an absolute URL, got \"v\"", "bad"]
    );
}

#[test]
fn flags_are_on_for_four_words() {
    let flag = |value: &str| env_flag(&environment(&[&[("F", value)]]), "F");
    for value in ["1", "true", "TRUE", "Yes", "on", " \"oN\" "] {
        assert!(flag(value), "{value}");
    }
    for value in ["0", "false", "no", "off", "", "y", "enabled", "11"] {
        assert!(!flag(value), "{value}");
    }
    assert!(!env_flag(&environment(&[]), "F"));
    assert!(env_flag_default(&environment(&[]), "F", true));
    assert!(!env_flag_default(&environment(&[&[("F", "x")]]), "F", true));
}

#[test]
fn ports_are_numbers_of_sixteen_bits() {
    let port = |value: &str| parse_u16_env(&environment(&[&[("P", value)]]), "P");
    assert_eq!(port("'2525'"), Some(2525));
    assert_eq!(port("65536"), None);
    assert_eq!(port("smtp"), None);
    assert_eq!(parse_u16_env(&environment(&[]), "P"), None);
}

#[test]
fn dates_use_hyphens() {
    let parse = |value: &str| parse_date_env(&environment(&[&[("D", value)]]), "D");
    assert_eq!(
        parse("2026-01-20").unwrap(),
        Date::from_ymd_opt(2026, 1, 20).unwrap()
    );
    assert_eq!(
        parse("20.01.2026").unwrap_err().chain[0],
        "D must use YYYY-MM-DD format"
    );
    assert_eq!(
        parse("2026-02-30").unwrap_err().chain,
        [
            "D must use YYYY-MM-DD format",
            "input is out of range"
        ]
    );
    assert_eq!(
        parse_date_env(&environment(&[]), "D").unwrap_err().chain[0],
        "missing required environment variable D"
    );
    assert_eq!(
        check_date("D", Err("bad".to_string())).unwrap_err().chain,
        ["D must use YYYY-MM-DD format", "bad"]
    );
    assert_eq!(check_date("D", Ok(today())).unwrap(), today());
}

#[test]
fn invoices_are_due_after_two_weeks() {
    assert_eq!(
        due_date_from(today()).unwrap(),
        Date::from_ymd_opt(2026, 10, 8).unwrap()
    );
    let last = Date::from_ymd_opt(262_142, 12, 20).unwrap();
    assert_eq!(
        due_date_from(last).unwrap_err().chain,
        ["failed to calculate default invoice due date"]
    );
    assert!(default_due_date().unwrap().year() >= 2024);
}

#[test]
fn the_required_variables_are_enough() {
    let config = Config::resolve(&environment(&[&REQUIRED]), today()).unwrap();
    assert_eq!(
        config.railway.graphql_url,
        "https://backboard.railway.com/graphql/v2"
    );
    assert_eq!(config.railway.token, "railway-token");
    assert_eq!(config.railway.workspace_id, "workspace");
    assert_eq!(config.railway.project_id, "project");
    assert_eq!(config.railway.project_name, "Shop");
    assert_eq!(config.railway.currency, "GBP");
    assert_eq!(config.oidc.token_url, "https://oidc.example/token");
    assert_eq!(config.oidc.client_id, "client");
    assert_eq!(config.oidc.client_secret, "secret");
    assert_eq!(config.oidc.scope, None);
    assert_eq!(config.oidc.audience, None);
    assert_eq!(
        config.santinvoice.base_url,
        "https://santinvoice.example/api"
    );
    assert_eq!(config.invoice.supplier_name, "Supplier");
    assert_eq!(config.invoice.supplier_address, "1 Main Street");
    assert_eq!(config.invoice.supplier_email, "supplier@example.com");
    assert_eq!(config.invoice.customer_name, "Customer");
    assert_eq!(config.invoice.customer_address, "2 High Street");
    assert_eq!(config.invoice.customer_email, "customer@example.com");
    assert_eq!(config.invoice.payment_due_by.to_string(), "2026-10-08");
    assert_eq!(config.invoice.notes, None);
    assert_eq!(config.invoice.service_summary, "Railway billing for Shop");
    assert_eq!(
        config.invoice.service_details,
        "Summarized Railway usage charges for project Shop."
    );
    assert_eq!(config.invoice.idempotency_prefix, "railway-santinvoice");
    assert!(config.pdf_email.is_none());
    assert!(Config::from_env(&environment(&[&REQUIRED])).is_ok());
}

#[test]
fn the_optional_variables_replace_the_defaults() {
    let optional = [
        ("RAILWAY_BILLING_CURRENCY", "EUR"),
        ("OIDC_SCOPE", "invoices"),
        ("OIDC_AUDIENCE", "santinvoice"),
        ("INVOICE_PAYMENT_DUE_BY", "2026-12-01"),
        ("INVOICE_NOTES", "Thank you"),
        ("INVOICE_SERVICE_SUMMARY", "Hosting"),
        ("INVOICE_SERVICE_DETAILS", "Details"),
        ("INVOICE_IDEMPOTENCY_PREFIX", "shop"),
    ];
    let config = Config::resolve(&environment(&[&REQUIRED, &optional]), today()).unwrap();
    assert_eq!(config.railway.currency, "EUR");
    assert_eq!(config.oidc.scope.as_deref(), Some("invoices"));
    assert_eq!(config.oidc.audience.as_deref(), Some("santinvoice"));
    assert_eq!(config.invoice.payment_due_by.to_string(), "2026-12-01");
    assert_eq!(config.invoice.notes.as_deref(), Some("Thank you"));
    assert_eq!(config.invoice.service_summary, "Hosting");
    assert_eq!(config.invoice.service_details, "Details");
    assert_eq!(config.invoice.idempotency_prefix, "shop");
}

#[test]
fn a_due_date_that_does_not_read_gives_way_to_the_default() {
    let env = environment(&[&REQUIRED, &[("INVOICE_PAYMENT_DUE_BY", "tomorrow")]]);
    let config = Config::resolve(&env, today()).unwrap();
    assert_eq!(config.invoice.payment_due_by.to_string(), "2026-10-08");
}

#[test]
fn each_required_variable_is_required() {
    for (i, (name, _)) in REQUIRED.iter().enumerate() {
        let env = without(environment(&[&REQUIRED]), name);
        let failure = Config::resolve(&env, today()).unwrap_err();
        assert_eq!(
            failure.chain[0],
            format!("missing required environment variable {name}")
        );
        let env = environment(&[&REQUIRED[..i]]);
        assert_eq!(
            Config::resolve(&env, today()).unwrap_err().chain[0],
            failure.chain[0]
        );
    }
}

#[test]
fn mail_delivery_is_configured_where_it_is_enabled() {
    let config = Config::resolve(&environment(&[&REQUIRED, &MAIL]), today()).unwrap();
    let mail = config.pdf_email.unwrap();
    assert_eq!(mail.recipient_email, "accounts@example.com");
    assert_eq!(mail.sender_email, "billing@example.com");
    assert_eq!(mail.smtp_host, "smtp.example.com");
    assert_eq!(mail.smtp_port, 587);
    assert_eq!(mail.smtp_username, "mailer");
    assert_eq!(mail.smtp_password, "hunter");
    assert!(mail.smtp_starttls);
    assert_eq!(mail.subject, "Invoice for Shop");
    assert_eq!(mail.body, "Please find attached the invoice PDF for Shop.");

    let more = [
        ("SMTP_PORT", "465"),
        ("SMTP_STARTTLS", "no"),
        ("PDF_EMAIL_SUBJECT", "Subject"),
        ("PDF_EMAIL_BODY", "Body"),
    ];
    let config = Config::resolve(&environment(&[&REQUIRED, &MAIL, &more]), today()).unwrap();
    let mail = config.pdf_email.unwrap();
    assert_eq!(mail.smtp_port, 465);
    assert!(!mail.smtp_starttls);
    assert_eq!(mail.subject, "Subject");
    assert_eq!(mail.body, "Body");
}

#[test]
fn mail_variables_are_required_only_where_mail_is_enabled() {
    for (name, _) in &MAIL[1..] {
        let env = without(environment(&[&REQUIRED, &MAIL]), name);
        assert_eq!(
            Config::resolve(&env, today()).unwrap_err().chain[0],
            format!("missing required environment variable {name}")
        );
    }
    let off = environment(&[&REQUIRED, &[("PDF_EMAIL_ENABLED", "false")]]);
    assert!(Config::resolve(&off, today()).unwrap().pdf_email.is_none());
}
