//! Billing, the invoice made of it, and what became of the invoice.

use vstd::prelude::*;

use crate::calendar;
use crate::calendar::Date;
use crate::config;
use crate::config::Config;
use crate::failure::Failure;
use crate::text;

verus! {

/// Where an amount stands to zero.
#[derive(Clone, Copy, Debug, PartialEq, Eq, Structural)]
pub enum Sign {
    Negative,
    Zero,
    Positive,
    /// The amount is not a number.
    Undefined,
}

/// A number in decimal, with two digits after the point.
pub open spec fn is_decimal(s: Seq<char>) -> bool {
    &&& s.len() >= 4
    &&& s[s.len() - 3] == '.'
    &&& text::all_digits(s.take(s.len() - 3))
    &&& text::all_digits(s.skip(s.len() - 2))
}

/// A text without the minus sign before it.
pub open spec fn without_minus(s: Seq<char>) -> Seq<char> {
    if s.len() > 0 && s[0] == '-' {
        s.drop_first()
    } else {
        s
    }
}

/// A number rounded to two decimals, as it is written: `NaN` where it is none, `inf` where it is
/// too large, each but the first with a minus sign where it has one.
pub open spec fn is_amount_text(s: Seq<char>) -> bool {
    s == "NaN"@ || without_minus(s) == "inf"@ || is_decimal(without_minus(s))
}

/// An amount that stands so to zero is written so. What is not zero may round to it, with its sign
/// kept.
pub open spec fn agrees(sign: Sign, s: Seq<char>) -> bool {
    match sign {
        Sign::Undefined => s == "NaN"@,
        Sign::Zero => without_minus(s) == "0.00"@,
        Sign::Negative => s != "NaN"@ && s.len() > 0 && s[0] == '-',
        Sign::Positive => s != "NaN"@ && s.len() > 0 && s[0] != '-',
    }
}

/// An amount by where it stands to zero and how it is written.
pub struct AmountView {
    pub sign: Sign,
    pub text: Seq<char>,
}

/// An amount: where it stands to zero, and how it is written, rounded to two decimals.
#[derive(Debug)]
pub struct Amount {
    sign: Sign,
    text: String,
}

impl View for Amount {
    type V = AmountView;

    closed spec fn view(&self) -> AmountView {
        AmountView { sign: self.sign, text: self.text@ }
    }
}

impl Clone for Amount {
    fn clone(&self) -> (r: Self)
        ensures
            r == *self,
    {
        proof {
            use_type_invariant(self);
        }
        Amount { sign: self.sign, text: self.text.clone() }
    }
}

fn digits_between(chars: &Vec<char>, from: usize, to: usize) -> (r: bool)
    requires
        from <= to <= chars@.len(),
    ensures
        r == text::all_digits(chars@.subrange(from as int, to as int)),
{
    let ghost part = chars@.subrange(from as int, to as int);
    let mut i: usize = from;
    while i < to
        invariant
            from <= i <= to <= chars@.len(),
            part == chars@.subrange(from as int, to as int),
            forall|k: int| 0 <= k < i - from ==> '0' <= #[trigger] part[k] <= '9',
        decreases to - i,
    {
        let c = chars[i];
        assert(part[i - from] == c);
        if c < '0' || c > '9' {
            return false;
        }
        i = i + 1;
    }
    true
}

fn decimal(s: &str) -> (r: bool)
    ensures
        r == is_decimal(s@),
{
    let chars = text::chars_of(s);
    let length: usize = chars.len();
    if length < 4 || chars[length - 3] != '.' {
        return false;
    }
    proof {
        assert(s@.take(length - 3) == chars@.subrange(0, length - 3));
        assert(s@.skip(length - 2) == chars@.subrange(length - 2, length as int));
    }
    digits_between(&chars, 0, length - 3) && digits_between(&chars, length - 2, length)
}

impl Amount {
    #[verifier::type_invariant]
    spec fn well_formed(self) -> bool {
        is_amount_text(self@.text) && agrees(self@.sign, self@.text)
    }

    /// The amount that stands so to zero and is written so, where that is how a number is written.
    pub fn new(sign: Sign, text: String) -> (r: Option<Amount>)
        ensures
            match r {
                Some(amount) => amount@ == (AmountView { sign, text: text@ }) && is_amount_text(
                    text@,
                ) && agrees(sign, text@),
                None => !(is_amount_text(text@) && agrees(sign, text@)),
            },
    {
        let s = text.as_str();
        let length: usize = s.unicode_len();
        let negative = length > 0 && s.get_char(0) == '-';
        let number = if negative {
            s.substring_char(1, length)
        } else {
            s
        };
        proof {
            assert(number@ == without_minus(s@));
        }
        let undefined = text::same_text(s, "NaN");
        let written = undefined || text::same_text(number, "inf") || decimal(number);
        let agreeing = match sign {
            Sign::Undefined => undefined,
            Sign::Zero => text::same_text(number, "0.00"),
            Sign::Negative => !undefined && negative,
            Sign::Positive => !undefined && length > 0 && !negative,
        };
        if written && agreeing {
            Some(Amount { sign, text })
        } else {
            None
        }
    }

    /// Where the amount stands to zero.
    pub fn sign(&self) -> (r: Sign)
        ensures
            r == self@.sign,
    {
        self.sign
    }

    /// How the amount is written.
    pub fn text(&self) -> (r: &str)
        ensures
            r@ == self@.text,
            is_amount_text(r@),
            agrees(self@.sign, r@),
    {
        proof {
            use_type_invariant(self);
        }
        self.text.as_str()
    }
}

/// An amount in a currency.
#[derive(Debug)]
pub struct Money {
    pub currency: String,
    pub value: Amount,
}

impl Clone for Money {
    fn clone(&self) -> (r: Self)
        ensures
            r == *self,
    {
        Money { currency: self.currency.clone(), value: self.value.clone() }
    }
}

/// What a project cost in a billing period.
#[derive(Debug)]
pub struct ProjectBilling {
    pub project_id: String,
    pub project_name: String,
    pub amount: Money,
    pub billing_from: Date,
    pub billing_to: Date,
}

impl Clone for ProjectBilling {
    fn clone(&self) -> (r: Self)
        ensures
            r == *self,
    {
        ProjectBilling {
            project_id: self.project_id.clone(),
            project_name: self.project_name.clone(),
            amount: self.amount.clone(),
            billing_from: self.billing_from,
            billing_to: self.billing_to,
        }
    }
}

#[derive(Debug)]
pub struct Party {
    pub name: String,
    pub address: String,
    pub email: String,
}

#[derive(Debug)]
pub struct InvoiceItem {
    pub date: Date,
    pub summary: String,
    pub details: Option<String>,
    pub link: Option<String>,
    pub tags: Vec<String>,
    pub debit: Money,
    pub credit: Option<Money>,
}

#[derive(Debug)]
pub struct Invoice {
    pub idempotency_key: String,
    pub payment_due_by: Date,
    pub currency: String,
    pub supplier: Party,
    pub customer: Party,
    pub items: Vec<InvoiceItem>,
    pub notes: Option<String>,
}

/// An amount that cannot be charged: zero, or below.
pub open spec fn is_not_chargeable(amount: Amount) -> bool {
    amount@.sign == Sign::Zero || amount@.sign == Sign::Negative
}

/// The configured details, followed by the project and the period of a billing.
pub open spec fn item_details(details: Seq<char>, billing: ProjectBilling) -> Seq<char> {
    details + "\nProject: "@ + billing.project_name@ + "\nProject ID: "@ + billing.project_id@
        + "\nPeriod: "@ + calendar::date_text(billing.billing_from@) + " to "@
        + calendar::date_text(billing.billing_to@)
}

/// The tags of the item for a billing.
pub open spec fn item_tags(billing: ProjectBilling) -> Seq<Seq<char>> {
    seq![
        "railway"@,
        "railway-project="@ + billing.project_id@,
        "billing-period="@ + calendar::date_text(billing.billing_from@) + ".."@
            + calendar::date_text(billing.billing_to@),
    ]
}

impl InvoiceItem {
    /// The item charges a billing.
    pub open spec fn is_of(&self, config: Config, billing: ProjectBilling) -> bool {
        &&& self.date@ == billing.billing_to@
        &&& self.summary@ == config.invoice.service_summary@
        &&& config::option_view(self.details) == Some(
            item_details(config.invoice.service_details@, billing),
        )
        &&& self.link is None
        &&& self.tags.deep_view() == item_tags(billing)
        &&& self.debit == billing.amount
        &&& self.credit is None
    }
}

impl Invoice {
    /// The invoice charges a billing, from the configured supplier to the configured customer, in
    /// the currency of the billing.
    pub open spec fn is_of(
        &self,
        config: Config,
        billing: ProjectBilling,
        idempotency_key: Seq<char>,
    ) -> bool {
        &&& self.idempotency_key@ == idempotency_key
        &&& self.payment_due_by@ == config.invoice.payment_due_by@
        &&& self.currency@ == billing.amount.currency@
        &&& self.supplier.name@ == config.invoice.supplier_name@
        &&& self.supplier.address@ == config.invoice.supplier_address@
        &&& self.supplier.email@ == config.invoice.supplier_email@
        &&& self.customer.name@ == config.invoice.customer_name@
        &&& self.customer.address@ == config.invoice.customer_address@
        &&& self.customer.email@ == config.invoice.customer_email@
        &&& self.items@.len() == 1
        &&& self.items@[0].is_of(config, billing)
        &&& config::option_view(self.notes) == config::option_view(config.invoice.notes)
    }

    /// The invoice for a billing, with one item; none where the amount is not above zero.
    pub fn from_billing(
        config: &Config,
        billing: &ProjectBilling,
        idempotency_key: String,
    ) -> (r: Result<Invoice, Failure>)
        ensures
            match r {
                Ok(invoice) => !is_not_chargeable(billing.amount.value) && invoice.is_of(
                    *config,
                    *billing,
                    idempotency_key@,
                ),
                Err(failure) => is_not_chargeable(billing.amount.value) && failure@ == seq![
                    "Railway billing amount must be greater than zero"@,
                ],
            },
    {
        let sign = billing.amount.value.sign();
        if sign == Sign::Zero || sign == Sign::Negative {
            return Err(
                Failure::new("Railway billing amount must be greater than zero".to_owned()),
            );
        }
        let from = billing.billing_from.to_string();
        let to = billing.billing_to.to_string();
        let details = config.invoice.service_details.clone().concat("\nProject: ").concat(
            billing.project_name.as_str(),
        ).concat("\nProject ID: ").concat(billing.project_id.as_str()).concat("\nPeriod: ").concat(
            from.as_str(),
        ).concat(" to ").concat(to.as_str());
        let mut tags: Vec<String> = Vec::new();
        tags.push("railway".to_owned());
        tags.push("railway-project=".to_owned().concat(billing.project_id.as_str()));
        tags.push(
            "billing-period=".to_owned().concat(from.as_str()).concat("..").concat(to.as_str()),
        );
        proof {
            assert(tags.deep_view() == item_tags(*billing));
        }
        let mut items: Vec<InvoiceItem> = Vec::new();
        items.push(
            InvoiceItem {
                date: billing.billing_to,
                summary: config.invoice.service_summary.clone(),
                details: Some(details),
                link: None,
                tags,
                debit: billing.amount.clone(),
                credit: None,
            },
        );
        Ok(
            Invoice {
                idempotency_key,
                payment_due_by: config.invoice.payment_due_by,
                currency: billing.amount.currency.clone(),
                supplier: Party {
                    name: config.invoice.supplier_name.clone(),
                    address: config.invoice.supplier_address.clone(),
                    email: config.invoice.supplier_email.clone(),
                },
                customer: Party {
                    name: config.invoice.customer_name.clone(),
                    address: config.invoice.customer_address.clone(),
                    email: config.invoice.customer_email.clone(),
                },
                items,
                notes: config.invoice.notes.clone(),
            },
        )
    }
}

/// The answer to a request for an access token.
#[derive(Debug)]
pub struct AccessTokenResponse {
    pub access_token: String,
    pub token_type: Option<String>,
    pub expires_in: Option<u64>,
}

/// Whether a submitted invoice is new.
#[derive(Clone, Copy, Debug, PartialEq, Eq, Structural)]
pub enum SubmissionStatus {
    Created,
    Duplicate,
}

/// What became of a submitted invoice.
#[derive(Debug)]
pub struct SubmissionResult {
    pub status: SubmissionStatus,
    pub invoice_number: Option<String>,
    pub response_body: String,
}

impl SubmissionResult {
    pub fn status_label(&self) -> (r: &'static str)
        ensures
            self.status is Created ==> r@ == "created"@,
            self.status is Duplicate ==> r@ == "duplicate"@,
    {
        match self.status {
            SubmissionStatus::Created => "created",
            SubmissionStatus::Duplicate => "duplicate",
        }
    }
}

} // verus!
