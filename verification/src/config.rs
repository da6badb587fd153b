//! The configuration, read from environment variables.

use vstd::prelude::*;

use crate::calendar;
use crate::calendar::CivilDate;
use crate::calendar::Date;
use crate::failure::Failure;
use crate::text;

verus! {

/// Environment variables by name, each with its value or why that is not a text. Of two with one
/// name the first counts.
pub struct Environment {
    pub vars: Vec<(String, Result<String, String>)>,
}

/// The value of the first variable of that name.
pub open spec fn first_value(
    vars: Seq<(String, Result<String, String>)>,
    name: Seq<char>,
) -> Option<Result<String, String>>
    decreases vars.len(),
{
    if vars.len() == 0 {
        None
    } else if vars[0].0@ == name {
        Some(vars[0].1)
    } else {
        first_value(vars.drop_first(), name)
    }
}

/// A value in a pair of equal quotes.
pub open spec fn is_quoted(s: Seq<char>) -> bool {
    &&& s.len() >= 2
    &&& s.first() == s.last()
    &&& s.first() == '"' || s.first() == '\''
}

/// A value without the white space around it and then without the pair of quotes around it.
pub open spec fn normalized(value: Seq<char>) -> Seq<char> {
    let inner = text::trimmed(value);
    if is_quoted(inner) {
        inner.subrange(1, inner.len() - 1)
    } else {
        inner
    }
}

impl Environment {
    /// What the variable of that name is set to.
    pub open spec fn setting(&self, name: Seq<char>) -> Option<Seq<char>> {
        match first_value(self.vars@, name) {
            Some(Ok(value)) => Some(normalized(value@)),
            _ => None,
        }
    }

    /// Why the variable of that name has no setting.
    pub open spec fn absence(&self, name: Seq<char>) -> Seq<char> {
        match first_value(self.vars@, name) {
            Some(Err(cause)) => cause@,
            _ => "environment variable not found"@,
        }
    }

    /// The value of the variable of that name.
    pub fn get(&self, name: &str) -> (r: Option<&Result<String, String>>)
        ensures
            match r {
                Some(value) => first_value(self.vars@, name@) == Some(*value),
                None => first_value(self.vars@, name@) is None,
            },
    {
        let mut i: usize = 0;
        proof {
            assert(self.vars@.skip(0) == self.vars@);
        }
        while i < self.vars.len()
            invariant
                0 <= i <= self.vars@.len(),
                first_value(self.vars@, name@) == first_value(self.vars@.skip(i as int), name@),
            decreases self.vars@.len() - i,
        {
            if text::same_text(self.vars[i].0.as_str(), name) {
                return Some(&self.vars[i].1);
            }
            proof {
                assert(self.vars@.skip(i as int).drop_first() == self.vars@.skip(i + 1));
            }
            i = i + 1;
        }
        None
    }
}

/// The value without the white space around it and then without the pair of quotes around it.
pub fn normalize_env_value(value: &str) -> (r: String)
    ensures
        r@ == normalized(value@),
{
    let trimmed = text::trim(value);
    let chars = text::chars_of(trimmed);
    let length: usize = chars.len();
    if length < 2 {
        return trimmed.to_owned();
    }
    let first = chars[0];
    let last = chars[length - 1];
    if (first == '"' && last == '"') || (first == '\'' && last == '\'') {
        return trimmed.substring_char(1, length - 1).to_owned();
    }
    trimmed.to_owned()
}

/// The setting of a variable that may be missing.
pub fn optional_env(env: &Environment, name: &str) -> (r: Option<String>)
    ensures
        match r {
            Some(value) => env.setting(name@) == Some(value@),
            None => env.setting(name@) is None,
        },
{
    match env.get(name) {
        Some(Ok(value)) => Some(normalize_env_value(value.as_str())),
        _ => None,
    }
}

/// The report of a missing variable.
pub open spec fn missing(name: Seq<char>, cause: Seq<char>) -> Seq<Seq<char>> {
    seq!["missing required environment variable "@ + name, cause]
}

/// The setting of a variable that must be there.
pub fn required_env(env: &Environment, name: &str) -> (r: Result<String, Failure>)
    ensures
        match r {
            Ok(value) => env.setting(name@) == Some(value@),
            Err(failure) => env.setting(name@) is None && failure@ == missing(
                name@,
                env.absence(name@),
            ),
        },
{
    let cause = match env.get(name) {
        Some(Ok(value)) => {
            return Ok(normalize_env_value(value.as_str()));
        },
        Some(Err(cause)) => cause.clone(),
        None => "environment variable not found".to_owned(),
    };
    Err(Failure::caused("missing required environment variable ".to_owned().concat(name), cause))
}

/// What `reqwest::Url::parse` reads of a text: the scheme and the host, where there is one, or
/// the message of its error.
pub uninterp spec fn url_reading(text: Seq<char>) -> Result<
    (Seq<char>, Option<Seq<char>>),
    Seq<char>,
>;

/// A reading of a URL: the scheme and the host, or the message of the error.
pub type UrlReading = Result<(String, Option<String>), String>;

/// The reading by the characters of its texts.
pub open spec fn url_view(reading: UrlReading) -> Result<
    (Seq<char>, Option<Seq<char>>),
    Seq<char>,
> {
    match reading {
        Ok((scheme, Some(host))) => Ok((scheme@, Some(host@))),
        Ok((scheme, None)) => Ok((scheme@, None)),
        Err(cause) => Err(cause@),
    }
}

/// `reqwest::Url::parse`, with `scheme` and `host_str` of the URL. Nothing is said of which texts
/// it reads.
#[verifier::external_body]
fn read_url(value: &str) -> (r: UrlReading)
    ensures
        url_view(r) == url_reading(value@),
{
    let url = reqwest::Url::parse(value).map_err(|e| e.to_string())?;
    Ok((url.scheme().to_owned(), url.host_str().map(|host| host.to_owned())))
}

/// What is wrong with a URL setting, by how it reads: not absolute, neither http nor https, or
/// without a host, in that order.
pub open spec fn url_fault(
    name: Seq<char>,
    value: Seq<char>,
    reading: Result<(Seq<char>, Option<Seq<char>>), Seq<char>>,
) -> Option<Seq<Seq<char>>> {
    match reading {
        Err(cause) => Some(
            seq![name + " must be an absolute URL, got "@ + text::debug_text(value), cause],
        ),
        Ok((scheme, host)) => if scheme != "http"@ && scheme != "https"@ {
            Some(seq![name + " must use http or https, got "@ + text::debug_text(scheme)])
        } else if host is None {
            Some(seq![name + " must include a host, got "@ + text::debug_text(value)])
        } else {
            None
        },
    }
}

/// The value of a URL setting, where it reads as an absolute http or https URL with a host.
pub fn check_absolute_url(name: &str, value: String, reading: UrlReading) -> (r: Result<
    String,
    Failure,
>)
    ensures
        match r {
            Ok(url) => url_fault(name@, value@, url_view(reading)) is None && url@ == value@,
            Err(failure) => url_fault(name@, value@, url_view(reading)) == Some(failure@),
        },
{
    let (scheme, host) = match reading {
        Ok(parts) => parts,
        Err(cause) => {
            return Err(
                Failure::caused(
                    name.to_owned().concat(" must be an absolute URL, got ").concat(
                        text::quoted(value.as_str()).as_str(),
                    ),
                    cause,
                ),
            );
        },
    };
    if !text::same_text(scheme.as_str(), "http") && !text::same_text(scheme.as_str(), "https") {
        return Err(
            Failure::new(
                name.to_owned().concat(" must use http or https, got ").concat(
                    text::quoted(scheme.as_str()).as_str(),
                ),
            ),
        );
    }
    if host.is_none() {
        return Err(
            Failure::new(
                name.to_owned().concat(" must include a host, got ").concat(
                    text::quoted(value.as_str()).as_str(),
                ),
            ),
        );
    }
    Ok(value)
}

impl Environment {
    /// What is wrong with a variable that must be there.
    pub open spec fn required_problem(&self, name: Seq<char>) -> Option<Seq<Seq<char>>> {
        match self.setting(name) {
            Some(value) => None,
            None => Some(missing(name, self.absence(name))),
        }
    }

    /// What is wrong with a variable that must be an http or https URL.
    pub open spec fn url_problem(&self, name: Seq<char>) -> Option<Seq<Seq<char>>> {
        match self.setting(name) {
            Some(value) => url_fault(name, value, url_reading(value)),
            None => Some(missing(name, self.absence(name))),
        }
    }

    /// The setting of a variable, or a default.
    pub open spec fn setting_or(&self, name: Seq<char>, default: Seq<char>) -> Seq<char> {
        match self.setting(name) {
            Some(value) => value,
            None => default,
        }
    }

    /// The setting of a flag: on for `1`, `true`, `yes` and `on` in whatever case.
    pub open spec fn flag(&self, name: Seq<char>, default: bool) -> bool {
        match self.setting(name) {
            Some(value) => {
                let lowered = text::ascii_lowered(value);
                ||| lowered == "1"@
                ||| lowered == "true"@
                ||| lowered == "yes"@
                ||| lowered == "on"@
            },
            None => default,
        }
    }

    /// The port that a variable gives, where it writes one.
    pub open spec fn port(&self, name: Seq<char>) -> Option<u16> {
        match self.setting(name) {
            Some(value) => text::u16_value(value),
            None => None,
        }
    }
}

/// The setting of a variable that must be an absolute http or https URL with a host.
pub fn required_absolute_url(env: &Environment, name: &str) -> (r: Result<String, Failure>)
    ensures
        match r {
            Ok(value) => env.url_problem(name@) is None && env.setting(name@) == Some(value@),
            Err(failure) => env.url_problem(name@) == Some(failure@),
        },
{
    let value = required_env(env, name)?;
    let reading = read_url(value.as_str());
    check_absolute_url(name, value, reading)
}

/// The setting of an optional variable, or a default.
pub fn env_or(env: &Environment, name: &str, default: String) -> (r: String)
    ensures
        r@ == env.setting_or(name@, default@),
{
    match optional_env(env, name) {
        Some(value) => value,
        None => default,
    }
}

/// The port that a variable gives, where it writes one.
pub fn parse_u16_env(env: &Environment, name: &str) -> (r: Option<u16>)
    ensures
        r == env.port(name@),
{
    match optional_env(env, name) {
        Some(value) => text::parse_u16(value.as_str()),
        None => None,
    }
}

/// The setting of a flag, which is off where the variable is missing.
pub fn env_flag(env: &Environment, name: &str) -> (r: bool)
    ensures
        r == env.flag(name@, false),
{
    env_flag_default(env, name, false)
}

/// The setting of a flag: on for `1`, `true`, `yes` and `on` in whatever case.
pub fn env_flag_default(env: &Environment, name: &str, default: bool) -> (r: bool)
    ensures
        r == env.flag(name@, default),
{
    match optional_env(env, name) {
        Some(value) => {
            let lowered = text::to_ascii_lowercase(value.as_str());
            text::same_text(lowered.as_str(), "1") || text::same_text(lowered.as_str(), "true")
                || text::same_text(lowered.as_str(), "yes") || text::same_text(
                lowered.as_str(),
                "on",
            )
        },
        None => default,
    }
}

/// What is wrong with a variable that must be there and give a date, by how its setting reads.
pub open spec fn date_fault(name: Seq<char>, cause: Seq<char>) -> Seq<Seq<char>> {
    seq![name + " must use YYYY-MM-DD format"@, cause]
}

/// The date that a variable gives, by how its setting reads.
pub fn check_date(name: &str, reading: Result<Date, String>) -> (r: Result<Date, Failure>)
    ensures
        match (r, reading) {
            (Ok(date), Ok(read)) => date == read,
            (Err(failure), Err(cause)) => failure@ == date_fault(name@, cause@),
            _ => false,
        },
{
    match reading {
        Ok(date) => Ok(date),
        Err(cause) => Err(
            Failure::caused(name.to_owned().concat(" must use YYYY-MM-DD format"), cause),
        ),
    }
}

impl Environment {
    /// The variable is set to that date, written as year, month and day with hyphens between.
    pub open spec fn writes_date(&self, name: Seq<char>, date: CivilDate) -> bool {
        &&& calendar::is_date(date)
        &&& 0 <= date.year <= 9999
        &&& self.setting(name) == Some(calendar::date_text(date))
    }
}

/// The date that a variable gives in the format `YYYY-MM-DD`.
pub fn parse_date_env(env: &Environment, name: &str) -> (r: Result<Date, Failure>)
    ensures
        match r {
            Ok(date) => env.setting(name@) is Some && calendar::date_reading(
                env.setting(name@)->0,
            ) is Ok && date@ == calendar::civil_of(
                calendar::date_reading(env.setting(name@)->0)->Ok_0,
            ),
            Err(failure) => match env.setting(name@) {
                None => failure@ == missing(name@, env.absence(name@)),
                Some(value) => calendar::date_reading(value) is Err && failure@ == date_fault(
                    name@,
                    calendar::date_reading(value)->Err_0,
                ),
            },
        },
        forall|d: CivilDate| #[trigger]
            env.writes_date(name@, d) ==> r is Ok && r->Ok_0@ == d,
{
    let value = required_env(env, name)?;
    let reading = calendar::read_date(value.as_str());
    check_date(name, reading)
}

/// The days from the day of an invoice to the day on which it is due.
pub const DUE_DAYS: u64 = 14;

/// The report of a due date that no date can hold.
pub open spec fn no_due_date() -> Seq<Seq<char>> {
    seq!["failed to calculate default invoice due date"@]
}

/// The due date of an invoice of that day.
pub fn due_date_from(today: Date) -> (r: Result<Date, Failure>)
    ensures
        match r {
            Ok(date) => date@ == calendar::days_after(today@, DUE_DAYS as nat) && calendar::is_date(
                date@,
            ),
            Err(failure) => !calendar::is_date(calendar::days_after(today@, DUE_DAYS as nat))
                && failure@ == no_due_date(),
        },
{
    match today.checked_add_days(DUE_DAYS) {
        Some(date) => Ok(date),
        None => Err(Failure::new("failed to calculate default invoice due date".to_owned())),
    }
}

/// The due date of an invoice of the day of the call.
pub fn default_due_date() -> (r: Result<Date, Failure>)
    ensures
        exists|today: CivilDate|
            #![trigger calendar::is_date(today)]
            calendar::is_date(today) && today.year >= 1970 && calendar::is_told_by_clock(today)
                && match r {
                Ok(date) => date@ == calendar::days_after(today, DUE_DAYS as nat),
                Err(failure) => !calendar::is_date(calendar::days_after(today, DUE_DAYS as nat))
                    && failure@ == no_due_date(),
            },
{
    let today = calendar::run_date();
    due_date_from(today)
}

#[derive(Debug)]
pub struct RailwayConfig {
    pub graphql_url: String,
    pub token: String,
    pub workspace_id: String,
    pub project_id: String,
    pub project_name: String,
    pub currency: String,
}

impl Clone for RailwayConfig {
    fn clone(&self) -> (r: Self)
        ensures
            r == *self,
    {
        RailwayConfig {
            graphql_url: self.graphql_url.clone(),
            token: self.token.clone(),
            workspace_id: self.workspace_id.clone(),
            project_id: self.project_id.clone(),
            project_name: self.project_name.clone(),
            currency: self.currency.clone(),
        }
    }
}

#[derive(Debug)]
pub struct OidcConfig {
    pub token_url: String,
    pub client_id: String,
    pub client_secret: String,
    pub scope: Option<String>,
    pub audience: Option<String>,
}

impl Clone for OidcConfig {
    fn clone(&self) -> (r: Self)
        ensures
            r == *self,
    {
        OidcConfig {
            token_url: self.token_url.clone(),
            client_id: self.client_id.clone(),
            client_secret: self.client_secret.clone(),
            scope: self.scope.clone(),
            audience: self.audience.clone(),
        }
    }
}

#[derive(Debug)]
pub struct SantInvoiceConfig {
    pub base_url: String,
}

impl Clone for SantInvoiceConfig {
    fn clone(&self) -> (r: Self)
        ensures
            r == *self,
    {
        SantInvoiceConfig {
            base_url: self.base_url.clone(),
        }
    }
}

#[derive(Debug)]
pub struct InvoiceConfig {
    pub supplier_name: String,
    pub supplier_address: String,
    pub supplier_email: String,
    pub customer_name: String,
    pub customer_address: String,
    pub customer_email: String,
    pub payment_due_by: Date,
    pub notes: Option<String>,
    pub service_summary: String,
    pub service_details: String,
    pub idempotency_prefix: String,
}

impl Clone for InvoiceConfig {
    fn clone(&self) -> (r: Self)
        ensures
            r == *self,
    {
        InvoiceConfig {
            supplier_name: self.supplier_name.clone(),
            supplier_address: self.supplier_address.clone(),
            supplier_email: self.supplier_email.clone(),
            customer_name: self.customer_name.clone(),
            customer_address: self.customer_address.clone(),
            customer_email: self.customer_email.clone(),
            payment_due_by: self.payment_due_by,
            notes: self.notes.clone(),
            service_summary: self.service_summary.clone(),
            service_details: self.service_details.clone(),
            idempotency_prefix: self.idempotency_prefix.clone(),
        }
    }
}

#[derive(Debug)]
pub struct PdfEmailConfig {
    pub recipient_email: String,
    pub sender_email: String,
    pub smtp_host: String,
    pub smtp_port: u16,
    pub smtp_username: String,
    pub smtp_password: String,
    pub smtp_starttls: bool,
    pub subject: String,
    pub body: String,
}

impl Clone for PdfEmailConfig {
    fn clone(&self) -> (r: Self)
        ensures
            r == *self,
    {
        PdfEmailConfig {
            recipient_email: self.recipient_email.clone(),
            sender_email: self.sender_email.clone(),
            smtp_host: self.smtp_host.clone(),
            smtp_port: self.smtp_port,
            smtp_username: self.smtp_username.clone(),
            smtp_password: self.smtp_password.clone(),
            smtp_starttls: self.smtp_starttls,
            subject: self.subject.clone(),
            body: self.body.clone(),
        }
    }
}

#[derive(Debug)]
pub struct Config {
    pub railway: RailwayConfig,
    pub oidc: OidcConfig,
    pub santinvoice: SantInvoiceConfig,
    pub invoice: InvoiceConfig,
    pub pdf_email: Option<PdfEmailConfig>,
}

impl Clone for Config {
    fn clone(&self) -> (r: Self)
        ensures
            r == *self,
    {
        Config {
            railway: self.railway.clone(),
            oidc: self.oidc.clone(),
            santinvoice: self.santinvoice.clone(),
            invoice: self.invoice.clone(),
            pdf_email: self.pdf_email.clone(),
        }
    }
}

/// A report, where there is one.
pub type Problem = Option<Seq<Seq<char>>>;

/// The first of two problems that is there.
pub open spec fn earlier(first: Problem, second: Problem) -> Problem {
    if first is Some {
        first
    } else {
        second
    }
}

/// The characters of an optional text.
pub open spec fn option_view(value: Option<String>) -> Option<Seq<char>> {
    match value {
        Some(s) => Some(s@),
        None => None,
    }
}

/// The details of the service where none are configured.
pub open spec fn default_details(project_name: Seq<char>) -> Seq<char> {
    "Summarized Railway usage charges for project "@ + project_name + "."@
}

/// The details of the service where none are configured.
pub fn billing_details_default(config: &RailwayConfig) -> (r: String)
    ensures
        r@ == default_details(config.project_name@),
{
    "Summarized Railway usage charges for project ".to_owned().concat(
        config.project_name.as_str(),
    ).concat(".")
}

impl RailwayConfig {
    /// The first thing wrong with the Railway variables.
    pub open spec fn problem(env: Environment) -> Problem {
        earlier(
            env.url_problem("RAILWAY_GRAPHQL_URL"@),
            earlier(
                env.required_problem("RAILWAY_TOKEN"@),
                earlier(
                    env.required_problem("RAILWAY_WORKSPACE_ID"@),
                    earlier(
                        env.required_problem("RAILWAY_PROJECT_ID"@),
                        env.required_problem("RAILWAY_TARGET_PROJECT_NAME"@),
                    ),
                ),
            ),
        )
    }

    /// The configuration holds what the variables are set to.
    pub open spec fn is_of(&self, env: Environment) -> bool {
        &&& env.setting("RAILWAY_GRAPHQL_URL"@) == Some(self.graphql_url@)
        &&& env.setting("RAILWAY_TOKEN"@) == Some(self.token@)
        &&& env.setting("RAILWAY_WORKSPACE_ID"@) == Some(self.workspace_id@)
        &&& env.setting("RAILWAY_PROJECT_ID"@) == Some(self.project_id@)
        &&& env.setting("RAILWAY_TARGET_PROJECT_NAME"@) == Some(self.project_name@)
        &&& self.currency@ == env.setting_or("RAILWAY_BILLING_CURRENCY"@, "GBP"@)
    }

    pub fn from_env(env: &Environment) -> (r: Result<RailwayConfig, Failure>)
        ensures
            match r {
                Ok(config) => Self::problem(*env) is None && config.is_of(*env),
                Err(failure) => Self::problem(*env) == Some(failure@),
            },
    {
        let graphql_url = required_absolute_url(env, "RAILWAY_GRAPHQL_URL")?;
        let token = required_env(env, "RAILWAY_TOKEN")?;
        let workspace_id = required_env(env, "RAILWAY_WORKSPACE_ID")?;
        let project_id = required_env(env, "RAILWAY_PROJECT_ID")?;
        let project_name = required_env(env, "RAILWAY_TARGET_PROJECT_NAME")?;
        let currency = env_or(env, "RAILWAY_BILLING_CURRENCY", "GBP".to_owned());
        Ok(RailwayConfig { graphql_url, token, workspace_id, project_id, project_name, currency })
    }
}

impl OidcConfig {
    /// The first thing wrong with the OIDC variables.
    pub open spec fn problem(env: Environment) -> Problem {
        earlier(
            env.url_problem("OIDC_TOKEN_URL"@),
            earlier(
                env.required_problem("OIDC_CLIENT_ID"@),
                env.required_problem("OIDC_CLIENT_SECRET"@),
            ),
        )
    }

    /// The configuration holds what the variables are set to.
    pub open spec fn is_of(&self, env: Environment) -> bool {
        &&& env.setting("OIDC_TOKEN_URL"@) == Some(self.token_url@)
        &&& env.setting("OIDC_CLIENT_ID"@) == Some(self.client_id@)
        &&& env.setting("OIDC_CLIENT_SECRET"@) == Some(self.client_secret@)
        &&& env.setting("OIDC_SCOPE"@) == option_view(self.scope)
        &&& env.setting("OIDC_AUDIENCE"@) == option_view(self.audience)
    }

    pub fn from_env(env: &Environment) -> (r: Result<OidcConfig, Failure>)
        ensures
            match r {
                Ok(config) => Self::problem(*env) is None && config.is_of(*env),
                Err(failure) => Self::problem(*env) == Some(failure@),
            },
    {
        let token_url = required_absolute_url(env, "OIDC_TOKEN_URL")?;
        let client_id = required_env(env, "OIDC_CLIENT_ID")?;
        let client_secret = required_env(env, "OIDC_CLIENT_SECRET")?;
        let scope = optional_env(env, "OIDC_SCOPE");
        let audience = optional_env(env, "OIDC_AUDIENCE");
        Ok(OidcConfig { token_url, client_id, client_secret, scope, audience })
    }
}

impl SantInvoiceConfig {
    /// What is wrong with the SantInvoice variable.
    pub open spec fn problem(env: Environment) -> Problem {
        env.url_problem("SANTINVOICE_BASE_URL"@)
    }

    /// The configuration holds what the variable is set to.
    pub open spec fn is_of(&self, env: Environment) -> bool {
        env.setting("SANTINVOICE_BASE_URL"@) == Some(self.base_url@)
    }

    pub fn from_env(env: &Environment) -> (r: Result<SantInvoiceConfig, Failure>)
        ensures
            match r {
                Ok(config) => Self::problem(*env) is None && config.is_of(*env),
                Err(failure) => Self::problem(*env) == Some(failure@),
            },
    {
        match required_absolute_url(env, "SANTINVOICE_BASE_URL") {
            Ok(base_url) => Ok(SantInvoiceConfig { base_url }),
            Err(failure) => Err(failure),
        }
    }
}

/// The due date of an invoice of the day `today`: the one that the variable gives, where it gives
/// one that reads, else the default.
pub open spec fn due_date(env: Environment, today: CivilDate) -> CivilDate {
    match env.setting("INVOICE_PAYMENT_DUE_BY"@) {
        Some(value) => match calendar::date_reading(value) {
            Ok(reading) => calendar::civil_of(reading),
            Err(_) => calendar::days_after(today, DUE_DAYS as nat),
        },
        None => calendar::days_after(today, DUE_DAYS as nat),
    }
}

/// The variable gives a due date that reads.
pub open spec fn gives_due_date(env: Environment) -> bool {
    match env.setting("INVOICE_PAYMENT_DUE_BY"@) {
        Some(value) => calendar::date_reading(value) is Ok,
        None => false,
    }
}

impl InvoiceConfig {
    /// The first thing wrong with the invoice variables on the day `today`.
    pub open spec fn problem(env: Environment, today: CivilDate) -> Problem {
        earlier(
            env.required_problem("INVOICE_SUPPLIER_NAME"@),
            earlier(
                env.required_problem("INVOICE_SUPPLIER_ADDRESS"@),
                earlier(
                    env.required_problem("INVOICE_SUPPLIER_EMAIL"@),
                    earlier(
                        env.required_problem("INVOICE_CUSTOMER_NAME"@),
                        earlier(
                            env.required_problem("INVOICE_CUSTOMER_ADDRESS"@),
                            earlier(
                                env.required_problem("INVOICE_CUSTOMER_EMAIL"@),
                                if gives_due_date(env) || calendar::is_date(due_date(env, today)) {
                                    None
                                } else {
                                    Some(no_due_date())
                                },
                            ),
                        ),
                    ),
                ),
            ),
        )
    }

    /// The configuration holds what the variables are set to, on the day `today` and for the
    /// project of that name.
    pub open spec fn is_of(
        &self,
        env: Environment,
        today: CivilDate,
        project_name: Seq<char>,
    ) -> bool {
        &&& env.setting("INVOICE_SUPPLIER_NAME"@) == Some(self.supplier_name@)
        &&& env.setting("INVOICE_SUPPLIER_ADDRESS"@) == Some(self.supplier_address@)
        &&& env.setting("INVOICE_SUPPLIER_EMAIL"@) == Some(self.supplier_email@)
        &&& env.setting("INVOICE_CUSTOMER_NAME"@) == Some(self.customer_name@)
        &&& env.setting("INVOICE_CUSTOMER_ADDRESS"@) == Some(self.customer_address@)
        &&& env.setting("INVOICE_CUSTOMER_EMAIL"@) == Some(self.customer_email@)
        &&& self.payment_due_by@ == due_date(env, today)
        &&& env.setting("INVOICE_NOTES"@) == option_view(self.notes)
        &&& self.service_summary@ == env.setting_or(
            "INVOICE_SERVICE_SUMMARY"@,
            "Railway billing for "@ + project_name,
        )
        &&& self.service_details@ == env.setting_or(
            "INVOICE_SERVICE_DETAILS"@,
            default_details(project_name),
        )
        &&& self.idempotency_prefix@ == env.setting_or(
            "INVOICE_IDEMPOTENCY_PREFIX"@,
            "railway-santinvoice"@,
        )
    }

    /// A due date that the variable writes is the due date of the invoice.
    pub open spec fn keeps_due_date(&self, env: Environment) -> bool {
        forall|d: CivilDate| #[trigger]
            env.writes_date("INVOICE_PAYMENT_DUE_BY"@, d) ==> self.payment_due_by@ == d
    }

    pub fn from_env(env: &Environment, today: Date, railway: &RailwayConfig) -> (r: Result<
        InvoiceConfig,
        Failure,
    >)
        ensures
            r is Ok ==> r->Ok_0.keeps_due_date(*env),
            match r {
                Ok(config) => Self::problem(*env, today@) is None && config.is_of(
                    *env,
                    today@,
                    railway.project_name@,
                ),
                Err(failure) => Self::problem(*env, today@) == Some(failure@),
            },
    {
        let supplier_name = required_env(env, "INVOICE_SUPPLIER_NAME")?;
        let supplier_address = required_env(env, "INVOICE_SUPPLIER_ADDRESS")?;
        let supplier_email = required_env(env, "INVOICE_SUPPLIER_EMAIL")?;
        let customer_name = required_env(env, "INVOICE_CUSTOMER_NAME")?;
        let customer_address = required_env(env, "INVOICE_CUSTOMER_ADDRESS")?;
        let customer_email = required_env(env, "INVOICE_CUSTOMER_EMAIL")?;
        let payment_due_by = match parse_date_env(env, "INVOICE_PAYMENT_DUE_BY") {
            Ok(date) => date,
            Err(_) => match due_date_from(today) {
                Ok(date) => date,
                Err(failure) => {
                    return Err(failure);
                },
            },
        };
        Ok(
            InvoiceConfig {
                supplier_name,
                supplier_address,
                supplier_email,
                customer_name,
                customer_address,
                customer_email,
                payment_due_by,
                notes: optional_env(env, "INVOICE_NOTES"),
                service_summary: env_or(
                    env,
                    "INVOICE_SERVICE_SUMMARY",
                    "Railway billing for ".to_owned().concat(railway.project_name.as_str()),
                ),
                service_details: env_or(
                    env,
                    "INVOICE_SERVICE_DETAILS",
                    billing_details_default(railway),
                ),
                idempotency_prefix: env_or(
                    env,
                    "INVOICE_IDEMPOTENCY_PREFIX",
                    "railway-santinvoice".to_owned(),
                ),
            },
        )
    }
}

impl PdfEmailConfig {
    /// The first thing wrong with the variables for mail delivery.
    pub open spec fn problem(env: Environment) -> Problem {
        earlier(
            env.required_problem("PDF_EMAIL_RECIPIENT"@),
            earlier(
                env.required_problem("SMTP_FROM_EMAIL"@),
                earlier(
                    env.required_problem("SMTP_HOST"@),
                    earlier(
                        env.required_problem("SMTP_USERNAME"@),
                        env.required_problem("SMTP_PASSWORD"@),
                    ),
                ),
            ),
        )
    }

    /// The configuration holds what the variables are set to, for the project of that name.
    pub open spec fn is_of(&self, env: Environment, project_name: Seq<char>) -> bool {
        &&& env.setting("PDF_EMAIL_RECIPIENT"@) == Some(self.recipient_email@)
        &&& env.setting("SMTP_FROM_EMAIL"@) == Some(self.sender_email@)
        &&& env.setting("SMTP_HOST"@) == Some(self.smtp_host@)
        &&& self.smtp_port == (match env.port("SMTP_PORT"@) {
            Some(port) => port,
            None => 587u16,
        })
        &&& env.setting("SMTP_USERNAME"@) == Some(self.smtp_username@)
        &&& env.setting("SMTP_PASSWORD"@) == Some(self.smtp_password@)
        &&& self.smtp_starttls == env.flag("SMTP_STARTTLS"@, true)
        &&& self.subject@ == env.setting_or("PDF_EMAIL_SUBJECT"@, "Invoice for "@ + project_name)
        &&& self.body@ == env.setting_or(
            "PDF_EMAIL_BODY"@,
            "Please find attached the invoice PDF for "@ + project_name + "."@,
        )
    }

    pub fn from_env(env: &Environment, railway: &RailwayConfig) -> (r: Result<
        PdfEmailConfig,
        Failure,
    >)
        ensures
            match r {
                Ok(config) => Self::problem(*env) is None && config.is_of(
                    *env,
                    railway.project_name@,
                ),
                Err(failure) => Self::problem(*env) == Some(failure@),
            },
    {
        let recipient_email = required_env(env, "PDF_EMAIL_RECIPIENT")?;
        let sender_email = required_env(env, "SMTP_FROM_EMAIL")?;
        let smtp_host = required_env(env, "SMTP_HOST")?;
        let smtp_port: u16 = match parse_u16_env(env, "SMTP_PORT") {
            Some(port) => port,
            None => 587,
        };
        let smtp_username = required_env(env, "SMTP_USERNAME")?;
        let smtp_password = required_env(env, "SMTP_PASSWORD")?;
        Ok(
            PdfEmailConfig {
                recipient_email,
                sender_email,
                smtp_host,
                smtp_port,
                smtp_username,
                smtp_password,
                smtp_starttls: env_flag_default(env, "SMTP_STARTTLS", true),
                subject: env_or(
                    env,
                    "PDF_EMAIL_SUBJECT",
                    "Invoice for ".to_owned().concat(railway.project_name.as_str()),
                ),
                body: env_or(
                    env,
                    "PDF_EMAIL_BODY",
                    "Please find attached the invoice PDF for ".to_owned().concat(
                        railway.project_name.as_str(),
                    ).concat("."),
                ),
            },
        )
    }
}

impl Config {
    /// The first thing wrong with the variables on the day `today`. Those for mail delivery count
    /// only where it is enabled.
    pub open spec fn problem(env: Environment, today: CivilDate) -> Problem {
        earlier(
            RailwayConfig::problem(env),
            earlier(
                OidcConfig::problem(env),
                earlier(
                    SantInvoiceConfig::problem(env),
                    earlier(
                        InvoiceConfig::problem(env, today),
                        if env.flag("PDF_EMAIL_ENABLED"@, false) {
                            PdfEmailConfig::problem(env)
                        } else {
                            None
                        },
                    ),
                ),
            ),
        )
    }

    /// The configuration holds what the variables are set to on the day `today`.
    pub open spec fn is_of(&self, env: Environment, today: CivilDate) -> bool {
        &&& self.railway.is_of(env)
        &&& self.oidc.is_of(env)
        &&& self.santinvoice.is_of(env)
        &&& self.invoice.is_of(env, today, self.railway.project_name@)
        &&& match self.pdf_email {
            Some(mail) => env.flag("PDF_EMAIL_ENABLED"@, false) && mail.is_of(
                env,
                self.railway.project_name@,
            ),
            None => !env.flag("PDF_EMAIL_ENABLED"@, false),
        }
    }

    /// The outcome of reading the configuration on the day `today`.
    pub open spec fn is_outcome(
        r: Result<Config, Failure>,
        env: Environment,
        today: CivilDate,
    ) -> bool {
        match r {
            Ok(config) => Self::problem(env, today) is None && config.is_of(env, today),
            Err(failure) => Self::problem(env, today) == Some(failure@),
        }
    }

    /// The configuration that the variables give on the day `today`.
    pub fn resolve(env: &Environment, today: Date) -> (r: Result<Config, Failure>)
        ensures
            Self::is_outcome(r, *env, today@),
            r is Ok ==> r->Ok_0.invoice.keeps_due_date(*env),
    {
        let railway = RailwayConfig::from_env(env)?;
        let oidc = OidcConfig::from_env(env)?;
        let santinvoice = SantInvoiceConfig::from_env(env)?;
        let invoice = InvoiceConfig::from_env(env, today, &railway)?;
        let pdf_email = if env_flag(env, "PDF_EMAIL_ENABLED") {
            match PdfEmailConfig::from_env(env, &railway) {
                Ok(config) => Some(config),
                Err(failure) => {
                    return Err(failure);
                },
            }
        } else {
            None
        };
        Ok(Config { railway, oidc, santinvoice, invoice, pdf_email })
    }

    /// The configuration that the variables give on the day of the call.
    pub fn from_env(env: &Environment) -> (r: Result<Config, Failure>)
        ensures
            exists|today: CivilDate|
                calendar::is_date(today) && today.year >= 1970 && calendar::is_told_by_clock(today)
                    && #[trigger] Self::is_outcome(r, *env, today),
            r is Ok ==> r->Ok_0.invoice.keeps_due_date(*env),
    {
        let today = calendar::run_date();
        Config::resolve(env, today)
    }
}

/// A value in a pair of quotes, with white space around them, stands for what is between them.
pub proof fn quotes_are_taken_off(
    left: Seq<char>,
    quote: char,
    value: Seq<char>,
    right: Seq<char>,
)
    requires
        text::is_blank(left),
        quote == '"' || quote == '\'',
        text::is_blank(right),
    ensures
        normalized(left + (seq![quote] + value + seq![quote]) + right) == value,
{
    let inner = seq![quote] + value + seq![quote];
    assert(inner.first() == quote && inner.last() == quote);
    text::trimming_takes_white_space_only(left, inner, right);
    assert(inner.subrange(1, inner.len() - 1) == value);
}

/// A value without quotes around it stands for itself, but for white space around it.
pub proof fn unquoted_value_is_kept(left: Seq<char>, value: Seq<char>, right: Seq<char>)
    requires
        text::is_blank(left),
        text::is_trim(value),
        !is_quoted(value),
        text::is_blank(right),
    ensures
        normalized(left + value + right) == value,
{
    text::trimming_takes_white_space_only(left, value, right);
}

/// The default due date lies after the day of the invoice.
pub proof fn default_due_date_is_later(today: CivilDate)
    requires
        calendar::is_date(today),
    ensures
        calendar::is_before(today, calendar::days_after(today, DUE_DAYS as nat)),
{
    calendar::days_pass(today, DUE_DAYS as nat);
}

/// Two configurations of mail delivery say the same.
pub open spec fn is_same_mail(a: PdfEmailConfig, b: PdfEmailConfig) -> bool {
    &&& a.recipient_email@ == b.recipient_email@
    &&& a.sender_email@ == b.sender_email@
    &&& a.smtp_host@ == b.smtp_host@
    &&& a.smtp_port == b.smtp_port
    &&& a.smtp_username@ == b.smtp_username@
    &&& a.smtp_password@ == b.smtp_password@
    &&& a.smtp_starttls == b.smtp_starttls
    &&& a.subject@ == b.subject@
    &&& a.body@ == b.body@
}

/// Two configurations of the invoice say the same.
pub open spec fn is_same_invoice(a: InvoiceConfig, b: InvoiceConfig) -> bool {
    &&& a.supplier_name@ == b.supplier_name@
    &&& a.supplier_address@ == b.supplier_address@
    &&& a.supplier_email@ == b.supplier_email@
    &&& a.customer_name@ == b.customer_name@
    &&& a.customer_address@ == b.customer_address@
    &&& a.customer_email@ == b.customer_email@
    &&& a.payment_due_by@ == b.payment_due_by@
    &&& option_view(a.notes) == option_view(b.notes)
    &&& a.service_summary@ == b.service_summary@
    &&& a.service_details@ == b.service_details@
    &&& a.idempotency_prefix@ == b.idempotency_prefix@
}

/// Two configurations say the same.
pub open spec fn is_same(a: Config, b: Config) -> bool {
    &&& a.railway.graphql_url@ == b.railway.graphql_url@
    &&& a.railway.token@ == b.railway.token@
    &&& a.railway.workspace_id@ == b.railway.workspace_id@
    &&& a.railway.project_id@ == b.railway.project_id@
    &&& a.railway.project_name@ == b.railway.project_name@
    &&& a.railway.currency@ == b.railway.currency@
    &&& a.oidc.token_url@ == b.oidc.token_url@
    &&& a.oidc.client_id@ == b.oidc.client_id@
    &&& a.oidc.client_secret@ == b.oidc.client_secret@
    &&& option_view(a.oidc.scope) == option_view(b.oidc.scope)
    &&& option_view(a.oidc.audience) == option_view(b.oidc.audience)
    &&& a.santinvoice.base_url@ == b.santinvoice.base_url@
    &&& is_same_invoice(a.invoice, b.invoice)
    &&& match (a.pdf_email, b.pdf_email) {
        (Some(x), Some(y)) => is_same_mail(x, y),
        (None, None) => true,
        _ => false,
    }
}

/// The environment and the day are all that a configuration depends on.
pub proof fn environment_tells_configuration(
    a: Config,
    b: Config,
    env: Environment,
    today: CivilDate,
)
    requires
        a.is_of(env, today),
        b.is_of(env, today),
    ensures
        is_same(a, b),
{
}

} // verus!
