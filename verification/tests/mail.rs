use railway_santinvoice::calendar::Date;
use railway_santinvoice::config::InvoiceConfig;
use railway_santinvoice::config::PdfEmailConfig;
use railway_santinvoice::email::check_mailbox;
use railway_santinvoice::email::compose_invoice_email;
use railway_santinvoice::email::encodable;
use railway_santinvoice::email::mail_failure;
use railway_santinvoice::email::parse_mailbox;
use railway_santinvoice::email::send_invoice_email;
use railway_santinvoice::email::MailFault;
use railway_santinvoice::email::Mailbox;

fn mail() -> PdfEmailConfig {
    PdfEmailConfig {
        recipient_email: "Accounts <accounts@example.com>".to_string(),
        sender_email: "billing@example.com".to_string(),
        smtp_host: "smtp.example.com".to_string(),
        smtp_port: 587,
        smtp_username: "mailer".to_string(),
        smtp_password: "hunter".to_string(),
        smtp_starttls: true,
        subject: "Invoice".to_string(),
        body: "Attached.".to_string(),
    }
}

fn invoice() -> InvoiceConfig {
    InvoiceConfig {
        supplier_name: "Supplier".to_string(),
        supplier_address: "Supplier address".to_string(),
        supplier_email: "supplier@example.com".to_string(),
        customer_name: "Customer".to_string(),
        customer_address: "Customer address".to_string(),
        customer_email: "customer@example.com".to_string(),
        payment_due_by: Date::from_ymd_opt(2026, 9, 30).unwrap(),
        notes: None,
        service_summary: "Railway billing".to_string(),
        service_details: "Usage".to_string(),
        idempotency_prefix: "test".to_string(),
    }
}

#[test]
fn mailboxes_have_an_address_and_perhaps_a_name() {
    let plain = parse_mailbox("billing@example.com").unwrap();
    assert_eq!(plain.name, None);
    assert_eq!(plain.user, "billing");
    assert_eq!(plain.domain, "example.com");
    let named = parse_mailbox("Accounts Dept <accounts@example.org>").unwrap();
    assert_eq!(named.name.as_deref(), Some("Accounts Dept"));
    assert_eq!(named.user, "accounts");
    assert_eq!(named.domain, "example.org");
}

#[test]
fn other_texts_are_no_mailboxes() {
    let failure = parse_mailbox("nobody").unwrap_err();
    assert_eq!(
        failure.chain,
        ["invalid email address: nobody", "Invalid input"]
    );
    assert!(parse_mailbox("").is_err());
    assert!(parse_mailbox("a@b@").is_err());
}

#[test]
fn mailboxes_go_by_the_reading() {
    let read = Mailbox {
        name: None,
        user: "a".to_string(),
        domain: "b".to_string(),
    };
    let mailbox = check_mailbox("x", Ok(read)).unwrap();
    assert_eq!((mailbox.user, mailbox.domain), ("a".into(), "b".into()));
    let failure = check_mailbox("x", Err("bad".to_string())).unwrap_err();
    assert_eq!(failure.chain, ["invalid email address: x", "bad"]);
}

#[test]
fn the_mail_carries_the_pdf() {
    let pdf: Vec<u8> = (0..=255).cycle().take(1000).collect();
    let email = send_invoice_email(&mail(), "INV-7", &pdf).unwrap();
    assert_eq!(email.sender.user, "billing");
    assert_eq!(email.recipient.user, "accounts");
    assert_eq!(email.recipient.name.as_deref(), Some("Accounts"));
    assert_eq!(email.subject, "Invoice");
    assert_eq!(email.body, "Attached.");
    assert_eq!(email.attachment_name, "invoice-INV-7.pdf");
    assert_eq!(email.attachment_type, "application/pdf");
    assert_eq!(email.attachment, pdf);
    assert_eq!(email.relay.host, "smtp.example.com");
    assert_eq!(email.relay.port, 587);
    assert_eq!(email.relay.username, "mailer");
    assert_eq!(email.relay.password, "hunter");
    assert!(email.relay.starttls);
}

#[test]
fn every_length_of_pdf_is_carried() {
    for length in 0..10_usize {
        let pdf: Vec<u8> = (0..length as u8).map(|i| i.wrapping_mul(83)).collect();
        let email = send_invoice_email(&mail(), "1", &pdf).unwrap();
        assert_eq!(email.attachment, pdf);
    }
}

#[test]
fn the_sender_is_looked_at_before_the_recipient() {
    let mut config = mail();
    config.recipient_email = "recipient".to_string();
    let failure = send_invoice_email(&config, "1", &[]).unwrap_err();
    assert_eq!(failure.chain[0], "invalid email address: recipient");
    config.sender_email = "sender".to_string();
    let failure = send_invoice_email(&config, "1", &[]).unwrap_err();
    assert_eq!(failure.chain[0], "invalid email address: sender");
}

#[test]
fn base64_must_fit_in_memory() {
    assert!(encodable(0));
    assert!(encodable(1 << 30));
    assert!(encodable(isize::MAX as usize / 4 * 3));
    assert!(!encodable(isize::MAX as usize / 4 * 3 + 1));
    assert!(!encodable(usize::MAX));
}

#[test]
fn faults_are_reported() {
    let report = |fault: MailFault, config: &PdfEmailConfig| {
        mail_failure(fault, config, &invoice()).to_string()
    };
    let cause = || "why".to_string();
    let starttls = mail();
    let mut implicit = mail();
    implicit.smtp_starttls = false;
    assert_eq!(
        report(MailFault::ContentType { cause: cause() }, &starttls),
        "invalid PDF content type: why"
    );
    assert_eq!(
        report(MailFault::Message { cause: cause() }, &starttls),
        "failed to build email message: why"
    );
    assert_eq!(
        report(MailFault::Relay { cause: cause() }, &starttls),
        "failed to configure STARTTLS relay for smtp.example.com: why"
    );
    assert_eq!(
        report(MailFault::Relay { cause: cause() }, &implicit),
        "failed to configure relay for smtp.example.com: why"
    );
    assert_eq!(
        report(MailFault::Send { cause: cause() }, &starttls),
        "failed to send invoice email for customer customer@example.com: why"
    );
}

#[test]
fn mails_go_between_the_given_mailboxes() {
    let mailbox = |user: &str| Mailbox {
        name: None,
        user: user.to_string(),
        domain: "example.net".to_string(),
    };
    let email = compose_invoice_email(&mail(), "8", vec![1, 2], mailbox("a"), mailbox("b"));
    assert_eq!(email.sender.user, "a");
    assert_eq!(email.recipient.user, "b");
    assert_eq!(email.attachment_name, "invoice-8.pdf");
    assert_eq!(email.attachment, [1, 2]);
}
