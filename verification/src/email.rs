//! The mail that carries the PDF of an invoice.

use vstd::prelude::*;

use base64::engine::general_purpose::STANDARD;
use base64::Engine;

use crate::config;
use crate::config::InvoiceConfig;
use crate::config::PdfEmailConfig;
use crate::failure::Failure;

verus! {

/// How a text reads as a mailbox: the name, the part of the address before the last `@` and the
/// part after it, or the message of the error.
pub uninterp spec fn mailbox_reading(text: Seq<char>) -> Result<
    (Option<Seq<char>>, Seq<char>, Seq<char>),
    Seq<char>,
>;

/// A mailbox by its characters: the name, and the two parts of the address.
pub type MailboxView = (Option<Seq<char>>, Seq<char>, Seq<char>);

/// Someone who sends or receives mail.
#[derive(Debug)]
pub struct Mailbox {
    pub name: Option<String>,
    pub user: String,
    pub domain: String,
}

impl View for Mailbox {
    type V = MailboxView;

    open spec fn view(&self) -> MailboxView {
        (config::option_view(self.name), self.user@, self.domain@)
    }
}

/// A reading of a mailbox, by the characters of its texts.
pub open spec fn mailbox_view(reading: Result<Mailbox, String>) -> Result<
    MailboxView,
    Seq<char>,
> {
    match reading {
        Ok(mailbox) => Ok(mailbox@),
        Err(cause) => Err(cause@),
    }
}

/// `<lettre::message::Mailbox as FromStr>::from_str`, with the name of the mailbox and `user` and
/// `domain` of its address. Nothing is said of which texts it reads.
#[verifier::external_body]
fn read_mailbox(email: &str) -> (r: Result<Mailbox, String>)
    ensures
        mailbox_view(r) == mailbox_reading(email@),
{
    let mailbox: lettre::message::Mailbox = email.parse().map_err(
        |e: lettre::address::AddressError| e.to_string(),
    )?;
    let user = mailbox.email.user().to_owned();
    let domain = mailbox.email.domain().to_owned();
    Ok(Mailbox { name: mailbox.name, user, domain })
}

/// The report of a text that does not read as a mailbox.
pub open spec fn mailbox_report(email: Seq<char>, cause: Seq<char>) -> Seq<Seq<char>> {
    seq!["invalid email address: "@ + email, cause]
}

/// What keeps a text from being a mailbox.
pub open spec fn mailbox_problem(email: Seq<char>) -> config::Problem {
    match mailbox_reading(email) {
        Ok(_) => None,
        Err(cause) => Some(mailbox_report(email, cause)),
    }
}

/// The mailbox that a text reads as, by its reading.
pub fn check_mailbox(email: &str, reading: Result<Mailbox, String>) -> (r: Result<Mailbox, Failure>)
    ensures
        match (r, reading) {
            (Ok(mailbox), Ok(read)) => mailbox == read,
            (Err(failure), Err(cause)) => failure@ == mailbox_report(email@, cause@),
            _ => false,
        },
{
    match reading {
        Ok(mailbox) => Ok(mailbox),
        Err(cause) => Err(
            Failure::caused("invalid email address: ".to_owned().concat(email), cause),
        ),
    }
}

/// The mailbox that a text reads as.
pub fn parse_mailbox(email: &str) -> (r: Result<Mailbox, Failure>)
    ensures
        match r {
            Ok(mailbox) => mailbox_reading(email@) == Ok::<MailboxView, Seq<char>>(mailbox@),
            Err(failure) => mailbox_problem(email@) == Some(failure@),
        },
{
    let reading = read_mailbox(email);
    check_mailbox(email, reading)
}

/// The base64 text of some bytes.
pub uninterp spec fn base64_text(bytes: Seq<u8>) -> Seq<char>;

/// How a text reads as base64: the bytes, or the message of the error.
pub uninterp spec fn base64_reading(text: Seq<char>) -> Result<Seq<u8>, Seq<char>>;

/// The text is read as those bytes.
pub open spec fn reads_as(text: Seq<char>, bytes: Seq<u8>) -> bool {
    base64_reading(text) == Ok::<Seq<u8>, Seq<char>>(bytes)
}

/// A reading of base64, by the contents of its parts.
pub open spec fn bytes_view(reading: Result<Vec<u8>, String>) -> Result<Seq<u8>, Seq<char>> {
    match reading {
        Ok(bytes) => Ok(bytes@),
        Err(cause) => Err(cause@),
    }
}

/// The base64 text of that many bytes, four characters for every three bytes begun, fits in
/// memory.
pub open spec fn is_encodable(len: nat) -> bool {
    (len + 2) / 3 * 4 <= isize::MAX
}

/// The base64 text of that many bytes fits in memory.
pub fn encodable(len: usize) -> (r: bool)
    ensures
        r == is_encodable(len as nat),
{
    len <= isize::MAX as usize / 4 * 3
}

/// `Engine::encode` of `base64::engine::general_purpose::STANDARD`. Its text is read back as the
/// bytes.
#[verifier::external_body]
fn encode_base64(bytes: &[u8]) -> (r: String)
    requires
        is_encodable(bytes@.len()),
    ensures
        r@ == base64_text(bytes@),
        reads_as(r@, bytes@),
{
    STANDARD.encode(bytes)
}

/// `Engine::decode` of `base64::engine::general_purpose::STANDARD`. Nothing is said here of which
/// texts it reads.
#[verifier::external_body]
fn decode_base64(text: &str) -> (r: Result<Vec<u8>, String>)
    ensures
        bytes_view(r) == base64_reading(text@),
{
    STANDARD.decode(text).map_err(|e| e.to_string())
}

/// The mail server that takes the mail.
#[derive(Debug)]
pub struct Relay {
    pub host: String,
    pub port: u16,
    pub username: String,
    pub password: String,
    pub starttls: bool,
}

/// A mail to send, with one attachment.
#[derive(Debug)]
pub struct InvoiceEmail {
    pub sender: Mailbox,
    pub recipient: Mailbox,
    pub subject: String,
    pub body: String,
    pub attachment_name: String,
    pub attachment_type: String,
    pub attachment: Vec<u8>,
    pub relay: Relay,
}

/// What keeps the mail from being made.
pub open spec fn email_problem(config: PdfEmailConfig) -> config::Problem {
    config::earlier(mailbox_problem(config.sender_email@), mailbox_problem(config.recipient_email@))
}

impl InvoiceEmail {
    /// The mail goes from one mailbox to another.
    pub open spec fn is_from_to(&self, sender: MailboxView, recipient: MailboxView) -> bool {
        self.sender@ == sender && self.recipient@ == recipient
    }

    /// The mail carries the PDF of the invoice of that number, through the configured server.
    pub open spec fn carries(
        &self,
        config: PdfEmailConfig,
        invoice_number: Seq<char>,
        pdf: Seq<u8>,
    ) -> bool {
        &&& self.subject@ == config.subject@
        &&& self.body@ == config.body@
        &&& self.attachment_name@ == "invoice-"@ + invoice_number + ".pdf"@
        &&& self.attachment_type@ == "application/pdf"@
        &&& self.attachment@ == pdf
        &&& self.relay.host@ == config.smtp_host@
        &&& self.relay.port == config.smtp_port
        &&& self.relay.username@ == config.smtp_username@
        &&& self.relay.password@ == config.smtp_password@
        &&& self.relay.starttls == config.smtp_starttls
    }

    /// The mail carries the PDF of the invoice of that number, as configured.
    pub open spec fn is_of(
        &self,
        config: PdfEmailConfig,
        invoice_number: Seq<char>,
        pdf: Seq<u8>,
    ) -> bool {
        &&& self.is_from_to(
            mailbox_reading(config.sender_email@)->Ok_0,
            mailbox_reading(config.recipient_email@)->Ok_0,
        )
        &&& self.carries(config, invoice_number, pdf)
    }
}

/// The mail with an attachment, as configured, between two mailboxes.
pub fn compose_invoice_email(
    config: &PdfEmailConfig,
    invoice_number: &str,
    attachment: Vec<u8>,
    sender: Mailbox,
    recipient: Mailbox,
) -> (r: InvoiceEmail)
    ensures
        r.is_from_to(sender@, recipient@),
        r.carries(*config, invoice_number@, attachment@),
{
    InvoiceEmail {
        sender,
        recipient,
        subject: config.subject.clone(),
        body: config.body.clone(),
        attachment_name: "invoice-".to_owned().concat(invoice_number).concat(".pdf"),
        attachment_type: "application/pdf".to_owned(),
        attachment,
        relay: Relay {
            host: config.smtp_host.clone(),
            port: config.smtp_port,
            username: config.smtp_username.clone(),
            password: config.smtp_password.clone(),
            starttls: config.smtp_starttls,
        },
    }
}

/// The mail to send, so that the PDF of an invoice reaches the configured recipient.
pub fn send_invoice_email(config: &PdfEmailConfig, invoice_number: &str, pdf_bytes: &[u8]) -> (r:
    Result<InvoiceEmail, Failure>)
    requires
        is_encodable(pdf_bytes@.len()),
    ensures
        match r {
            Ok(email) => email_problem(*config) is None && email.is_of(
                *config,
                invoice_number@,
                pdf_bytes@,
            ),
            Err(failure) => email_problem(*config) == Some(failure@),
        },
{
    let encoded = encode_base64(pdf_bytes);
    let attachment = match decode_base64(encoded.as_str()) {
        Ok(bytes) => bytes,
        Err(cause) => {
            return Err(Failure::new(cause));
        },
    };
    let sender = parse_mailbox(config.sender_email.as_str())?;
    let recipient = parse_mailbox(config.recipient_email.as_str())?;
    Ok(compose_invoice_email(config, invoice_number, attachment, sender, recipient))
}

/// What went wrong on the way of a mail, each with the message of its cause.
#[derive(Debug)]
pub enum MailFault {
    /// The type of the attachment was not understood.
    ContentType { cause: String },
    /// The message could not be put together.
    Message { cause: String },
    /// The mail server could not be set up.
    Relay { cause: String },
    /// The mail server did not take the message.
    Send { cause: String },
}

/// The report of what went wrong on the way of a mail.
pub open spec fn mail_report(
    fault: MailFault,
    config: PdfEmailConfig,
    customer_email: Seq<char>,
) -> Seq<Seq<char>> {
    match fault {
        MailFault::ContentType { cause } => seq!["invalid PDF content type"@, cause@],
        MailFault::Message { cause } => seq!["failed to build email message"@, cause@],
        MailFault::Relay { cause } => if config.smtp_starttls {
            seq!["failed to configure STARTTLS relay for "@ + config.smtp_host@, cause@]
        } else {
            seq!["failed to configure relay for "@ + config.smtp_host@, cause@]
        },
        MailFault::Send { cause } => seq![
            "failed to send invoice email for customer "@ + customer_email,
            cause@,
        ],
    }
}

/// The report of what went wrong on the way of a mail.
pub fn mail_failure(fault: MailFault, config: &PdfEmailConfig, invoice: &InvoiceConfig) -> (r:
    Failure)
    ensures
        r@ == mail_report(fault, *config, invoice.customer_email@),
{
    match fault {
        MailFault::ContentType { cause } => Failure::caused(
            "invalid PDF content type".to_owned(),
            cause,
        ),
        MailFault::Message { cause } => Failure::caused(
            "failed to build email message".to_owned(),
            cause,
        ),
        MailFault::Relay { cause } => if config.smtp_starttls {
            Failure::caused(
                "failed to configure STARTTLS relay for ".to_owned().concat(
                    config.smtp_host.as_str(),
                ),
                cause,
            )
        } else {
            Failure::caused(
                "failed to configure relay for ".to_owned().concat(config.smtp_host.as_str()),
                cause,
            )
        },
        MailFault::Send { cause } => Failure::caused(
            "failed to send invoice email for customer ".to_owned().concat(
                invoice.customer_email.as_str(),
            ),
            cause,
        ),
    }
}

} // verus!
