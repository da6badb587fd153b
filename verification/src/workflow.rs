//! The course of one run: what to do next, by what came of the last thing done.

use vstd::prelude::*;

use crate::calendar;
use crate::calendar::BillingPeriod;
use crate::clients;
use crate::clients::Charge;
use crate::clients::GraphQlDelivery;
use crate::clients::OidcClient;
use crate::clients::PdfReply;
use crate::clients::ProjectOnlyEnvelope;
use crate::clients::RailwayClient;
use crate::clients::RailwayProject;
use crate::clients::SantInvoiceClient;
use crate::clients::UsageEnvelope;
use crate::clients::WorkspaceEnvelope;
use crate::config;
use crate::config::Config;
use crate::config::PdfEmailConfig;
use crate::email;
use crate::email::InvoiceEmail;
use crate::email::MailFault;
use crate::failure::Failure;
use crate::http::Decoded;
use crate::http::Delivery;
use crate::http::HttpReply;
use crate::http::HttpRequest;
use crate::http::RequestView;
use crate::keys;
use crate::models;
use crate::models::AccessTokenResponse;
use crate::models::Amount;
use crate::models::Invoice;
use crate::models::ProjectBilling;
use crate::models::SubmissionResult;
use crate::models::SubmissionStatus;
use crate::text;
use crate::xml;

verus! {

/// What the run waits for.
#[derive(Debug)]
pub enum Stage {
    /// The identity of the project.
    Project,
    /// The start of the current billing period.
    Period { project: RailwayProject },
    /// The usage in the billing period.
    Usage { project: RailwayProject, period: BillingPeriod },
    /// The sum of the charges.
    Cost { project: RailwayProject, period: BillingPeriod },
    /// The access token.
    Token { billing: ProjectBilling },
    /// The answer to the submission.
    Submission { access_token: String },
    /// The PDF of the invoice of that number.
    Pdf { mail: PdfEmailConfig, invoice_number: String },
    /// The delivery of the mail.
    Mail { mail: PdfEmailConfig },
    /// Nothing: the run is over.
    Over,
}

/// What came of the last thing done.
#[derive(Debug)]
pub enum Event {
    Project(GraphQlDelivery<ProjectOnlyEnvelope>),
    Period(GraphQlDelivery<WorkspaceEnvelope>),
    Usage(GraphQlDelivery<UsageEnvelope>),
    Cost(Amount),
    Token(Delivery<Decoded<AccessTokenResponse>>),
    Submission(Delivery<HttpReply>),
    Pdf(Delivery<PdfReply>),
    Mail(Result<(), MailFault>),
}

/// What to do next.
#[derive(Debug)]
pub enum Action {
    FetchProject(HttpRequest),
    FetchPeriod(HttpRequest),
    FetchUsage(HttpRequest),
    /// Sum the charges for the usage just fetched.
    SumCharges(Vec<Charge>),
    FetchToken(HttpRequest),
    Submit(HttpRequest),
    DownloadPdf(HttpRequest),
    SendEmail(InvoiceEmail),
    /// The run has succeeded.
    Finish,
    /// The run has failed.
    Fail(Failure),
}

/// A line to print.
#[derive(Debug)]
pub enum Line {
    /// On the standard output.
    Output(String),
    /// On the standard error.
    Warning(String),
}

/// A line by its characters.
pub enum LineView {
    Output(Seq<char>),
    Warning(Seq<char>),
}

impl View for Line {
    type V = LineView;

    open spec fn view(&self) -> LineView {
        match self {
            Line::Output(s) => LineView::Output(s@),
            Line::Warning(s) => LineView::Warning(s@),
        }
    }
}

/// The lines to print, and what to do next.
#[derive(Debug)]
pub struct Step {
    pub lines: Vec<Line>,
    pub action: Action,
}

impl Step {
    /// The lines to print, by their characters.
    pub open spec fn printed(&self) -> Seq<LineView> {
        self.lines@.map_values(|line: Line| line@)
    }
}

/// A run.
#[derive(Debug)]
pub struct Workflow {
    pub config: Config,
    pub idempotency_key: String,
    pub stage: Stage,
}

/// The word for what became of a submitted invoice.
pub open spec fn status_word(status: SubmissionStatus) -> Seq<char> {
    match status {
        SubmissionStatus::Created => "created"@,
        SubmissionStatus::Duplicate => "duplicate"@,
    }
}

/// The line that tells of a submission.
pub open spec fn submitted_line(status: SubmissionStatus, number: Option<Seq<char>>) -> LineView {
    LineView::Output(
        "invoice submitted: status="@ + status_word(status) + " invoice_number="@ + (match number {
            Some(number) => number,
            None => "unknown"@,
        }),
    )
}

/// The line that tells of a mail.
pub open spec fn emailed_line(recipient: Seq<char>) -> LineView {
    LineView::Output("pdf emailed: recipient="@ + recipient)
}

/// The line that warns of what went wrong after the submission.
pub open spec fn warning_line(report: Seq<Seq<char>>) -> LineView {
    LineView::Warning("post-submit warning: "@ + text::joined(report, ": "@))
}

/// The report of a submission without the number of the invoice.
pub open spec fn no_number() -> Seq<Seq<char>> {
    seq!["invoice number missing from SantInvoice response"@]
}

fn output(line: String) -> (r: Vec<Line>)
    ensures
        r@.map_values(|line: Line| line@) == seq![LineView::Output(line@)],
{
    let mut r: Vec<Line> = Vec::new();
    r.push(Line::Output(line));
    proof {
        assert(r@.map_values(|line: Line| line@) == seq![LineView::Output(line@)]);
    }
    r
}

fn report_submission(submission: &SubmissionResult) -> (r: Vec<Line>)
    ensures
        r@.map_values(|line: Line| line@) == seq![
            submitted_line(submission.status, config::option_view(submission.invoice_number)),
        ],
{
    let number = match &submission.invoice_number {
        Some(number) => number.as_str(),
        None => "unknown",
    };
    output(
        "invoice submitted: status=".to_owned().concat(submission.status_label()).concat(
            " invoice_number=",
        ).concat(number),
    )
}

fn warn(lines: &mut Vec<Line>, failure: &Failure)
    ensures
        final(lines)@.map_values(|line: Line| line@) == old(lines)@.map_values(
            |line: Line| line@,
        ).push(warning_line(failure@)),
{
    let report = failure.to_string();
    lines.push(Line::Warning("post-submit warning: ".to_owned().concat(report.as_str())));
    proof {
        assert(lines@.map_values(|line: Line| line@) == old(lines)@.map_values(
            |line: Line| line@,
        ).push(warning_line(failure@)));
    }
}

impl Step {
    fn quietly(action: Action) -> (r: Step)
        ensures
            r.printed() == Seq::<LineView>::empty(),
            r.action == action,
    {
        let r = Step { lines: Vec::new(), action };
        proof {
            assert(r.printed() == Seq::<LineView>::empty());
        }
        r
    }

    /// The step ends the run with a failure, and prints nothing.
    pub open spec fn fails(&self, report: Seq<Seq<char>>) -> bool {
        &&& self.printed() == Seq::<LineView>::empty()
        &&& self.action matches Action::Fail(failure)
        &&& failure@ == report
    }

    /// The step ends the run with success.
    pub open spec fn finishes(&self, lines: Seq<LineView>) -> bool {
        &&& self.printed() == lines
        &&& self.action is Finish
    }
}

/// The billing holds what was found out about the project, in the configured currency.
pub open spec fn is_billing(
    billing: ProjectBilling,
    config: Config,
    project: RailwayProject,
    period: BillingPeriod,
    cost: Amount,
) -> bool {
    &&& billing.project_id == project.id
    &&& billing.project_name == project.name
    &&& billing.amount.currency == config.railway.currency
    &&& billing.amount.value == cost
    &&& billing.billing_from@ == period.from@
    &&& billing.billing_to@ == period.to@
}

/// The request submits the invoice for a billing.
pub open spec fn submits_invoice_for(
    request: RequestView,
    config: Config,
    billing: ProjectBilling,
    access_token: Seq<char>,
    idempotency_key: Seq<char>,
) -> bool {
    exists|invoice: Invoice| #[trigger]
        invoice.is_of(config, billing, idempotency_key) && request == clients::submission_request(
            config.santinvoice,
            access_token,
            idempotency_key,
            xml::document(invoice),
        )
}

impl Workflow {
    /// The Railway API, as configured.
    pub open spec fn railway(&self) -> RailwayClient {
        RailwayClient { config: self.config.railway }
    }

    /// What keeps a query to Railway from being sent, seen from the attempt.
    pub open spec fn query_problem(&self, context: Seq<char>) -> config::Problem {
        clients::problem_within(clients::token_problem(self.config.railway.token@), context)
    }

    /// The event is one that the run waits for. A PDF fits in memory once more, as base64.
    pub open spec fn expects(&self, event: Event) -> bool {
        match (self.stage, event) {
            (Stage::Project, Event::Project(_)) => true,
            (Stage::Period { .. }, Event::Period(_)) => true,
            (Stage::Usage { .. }, Event::Usage(_)) => true,
            (Stage::Cost { .. }, Event::Cost(_)) => true,
            (Stage::Token { .. }, Event::Token(_)) => true,
            (Stage::Submission { .. }, Event::Submission(_)) => true,
            (Stage::Pdf { .. }, Event::Pdf(delivery)) => delivery matches Delivery::Read(pdf)
                ==> email::is_encodable(pdf.content@.len()),
            (Stage::Mail { .. }, Event::Mail(_)) => true,
            _ => false,
        }
    }

    /// The event is one that the run waits for.
    pub fn accepts(&self, event: &Event) -> (r: bool)
        ensures
            r == self.expects(*event),
    {
        match (&self.stage, event) {
            (Stage::Project, Event::Project(_)) => true,
            (Stage::Period { .. }, Event::Period(_)) => true,
            (Stage::Usage { .. }, Event::Usage(_)) => true,
            (Stage::Cost { .. }, Event::Cost(_)) => true,
            (Stage::Token { .. }, Event::Token(_)) => true,
            (Stage::Submission { .. }, Event::Submission(_)) => true,
            (Stage::Pdf { .. }, Event::Pdf(delivery)) => match delivery {
                Delivery::Read(pdf) => email::encodable(pdf.content.len()),
                _ => true,
            },
            (Stage::Mail { .. }, Event::Mail(_)) => true,
            _ => false,
        }
    }

    /// How a run begins: with the query for the project, unless the token cannot be sent.
    pub open spec fn is_start(&self, step: Step) -> bool {
        match clients::token_problem(self.config.railway.token@) {
            Some(report) => self.stage is Over && step.fails(report),
            None => {
                &&& self.stage is Project
                &&& step.printed() == Seq::<LineView>::empty()
                &&& step.action matches Action::FetchProject(request)
                &&& request@ == clients::graphql_request(
                    self.config.railway,
                    clients::PROJECT_IDENTITY_QUERY@,
                    self.railway().project_variables(),
                )
            },
        }
    }

    /// After the reply to the query for the project: the query for the billing period.
    pub open spec fn is_after_project(
        &self,
        delivery: GraphQlDelivery<ProjectOnlyEnvelope>,
        next: Stage,
        step: Step,
    ) -> bool {
        match config::earlier(
            clients::project_problem(delivery),
            self.query_problem("Railway billing period query failed"@),
        ) {
            Some(report) => next is Over && step.fails(report),
            None => {
                &&& next matches Stage::Period { project }
                &&& clients::project_of(clients::graphql_data(delivery)) == Some(project)
                &&& step.printed() == Seq::<LineView>::empty()
                &&& step.action matches Action::FetchPeriod(request)
                &&& request@ == clients::graphql_request(
                    self.config.railway,
                    clients::BILLING_PERIOD_QUERY@,
                    self.railway().period_variables(),
                )
            },
        }
    }

    /// After the reply to the query for the billing period: the query for the usage in the
    /// completed period before.
    pub open spec fn is_after_period(
        &self,
        project: RailwayProject,
        delivery: GraphQlDelivery<WorkspaceEnvelope>,
        next: Stage,
        step: Step,
    ) -> bool {
        &&& clients::start_is_read_back(delivery)
        &&& match config::earlier(
            clients::period_problem(delivery),
            self.query_problem("Railway usage query failed"@),
        ) {
            Some(report) => next is Over && step.fails(report),
            None => {
                &&& next matches Stage::Usage { project: kept, period }
                &&& kept == project
                &&& calendar::is_period_before(period, clients::period_boundary(delivery))
                &&& step.printed() == Seq::<LineView>::empty()
                &&& step.action matches Action::FetchUsage(request)
                &&& request@ == clients::graphql_request(
                    self.config.railway,
                    clients::USAGE_QUERY@,
                    self.railway().usage_variables(period),
                )
            },
        }
    }

    /// After the reply to the query for the usage: the sum of the charges.
    pub open spec fn is_after_usage(
        &self,
        project: RailwayProject,
        period: BillingPeriod,
        delivery: GraphQlDelivery<UsageEnvelope>,
        next: Stage,
        step: Step,
    ) -> bool {
        match clients::usage_problem(delivery) {
            Some(report) => next is Over && step.fails(report),
            None => {
                &&& next == Stage::Cost { project, period }
                &&& step.printed() == Seq::<LineView>::empty()
                &&& step.action matches Action::SumCharges(list)
                &&& list@ == clients::charges(
                    clients::usage_of(clients::graphql_data(delivery))->0@,
                    self.config.railway.project_id@,
                )
            },
        }
    }

    /// After the sum of the charges: the request for an access token.
    pub open spec fn is_after_cost(
        &self,
        project: RailwayProject,
        period: BillingPeriod,
        cost: Amount,
        next: Stage,
        step: Step,
    ) -> bool {
        &&& next matches Stage::Token { billing }
        &&& is_billing(billing, self.config, project, period, cost)
        &&& step.printed() == Seq::<LineView>::empty()
        &&& step.action matches Action::FetchToken(request)
        &&& request@ == clients::token_request(self.config.oidc)
    }

    /// What keeps the invoice for a billing from being submitted, by the reply to the request for
    /// an access token.
    pub open spec fn invoice_problem(
        billing: ProjectBilling,
        delivery: Delivery<Decoded<AccessTokenResponse>>,
    ) -> config::Problem {
        config::earlier(
            clients::access_token_problem(delivery),
            if models::is_not_chargeable(billing.amount.value) {
                Some(seq!["Railway billing amount must be greater than zero"@])
            } else {
                None
            },
        )
    }

    /// After the reply to the request for an access token: the submission of the invoice.
    pub open spec fn is_after_token(
        &self,
        billing: ProjectBilling,
        delivery: Delivery<Decoded<AccessTokenResponse>>,
        next: Stage,
        step: Step,
    ) -> bool {
        match Self::invoice_problem(billing, delivery) {
            Some(report) => next is Over && step.fails(report),
            None => {
                let access_token = delivery->Read_0.value->Ok_0.access_token;
                &&& next == Stage::Submission { access_token }
                &&& step.printed() == Seq::<LineView>::empty()
                &&& step.action matches Action::Submit(request)
                &&& submits_invoice_for(
                    request@,
                    self.config,
                    billing,
                    access_token@,
                    self.idempotency_key@,
                )
            },
        }
    }

    /// After the answer to the submission: the end, or the request for the PDF where mail delivery
    /// is configured. A missing number of the invoice is a warning only.
    pub open spec fn is_after_submission(
        &self,
        access_token: String,
        delivery: Delivery<HttpReply>,
        next: Stage,
        step: Step,
    ) -> bool {
        match clients::submission_problem(delivery) {
            Some(report) => next is Over && step.fails(report),
            None => {
                let reply = delivery->Read_0;
                let number = clients::invoice_number_in(reply.body@);
                let submitted = submitted_line(
                    clients::submission_status(reply.status)->0,
                    number,
                );
                match (self.config.pdf_email, number) {
                    (None, _) => next is Over && step.finishes(seq![submitted]),
                    (Some(_), None) => next is Over && step.finishes(
                        seq![submitted, warning_line(no_number())],
                    ),
                    (Some(mail), Some(number)) => {
                        &&& next matches Stage::Pdf { mail: kept, invoice_number }
                        &&& kept == mail
                        &&& invoice_number@ == number
                        &&& step.printed() == seq![submitted]
                        &&& step.action matches Action::DownloadPdf(request)
                        &&& request@ == clients::pdf_request(
                            self.config.santinvoice,
                            access_token@,
                            number,
                        )
                    },
                }
            },
        }
    }

    /// After the reply to the request for the PDF: the mail. What goes wrong is a warning only.
    pub open spec fn is_after_pdf(
        &self,
        mail: PdfEmailConfig,
        invoice_number: String,
        delivery: Delivery<PdfReply>,
        next: Stage,
        step: Step,
    ) -> bool {
        match config::earlier(clients::pdf_problem(delivery), email::email_problem(mail)) {
            Some(report) => next is Over && step.finishes(seq![warning_line(report)]),
            None => {
                &&& next == Stage::Mail { mail }
                &&& step.printed() == Seq::<LineView>::empty()
                &&& step.action matches Action::SendEmail(email)
                &&& email.is_of(mail, invoice_number@, delivery->Read_0.content@)
            },
        }
    }

    /// After the delivery of the mail: the end. What went wrong is a warning only.
    pub open spec fn is_after_mail(
        &self,
        mail: PdfEmailConfig,
        outcome: Result<(), MailFault>,
        next: Stage,
        step: Step,
    ) -> bool {
        &&& next is Over
        &&& match outcome {
            Ok(()) => step.finishes(seq![emailed_line(mail.recipient_email@)]),
            Err(fault) => step.finishes(
                seq![
                    warning_line(
                        email::mail_report(fault, mail, self.config.invoice.customer_email@),
                    ),
                ],
            ),
        }
    }

    /// What an event that the run waits for leads to.
    pub open spec fn is_step(&self, event: Event, next: Workflow, step: Step) -> bool {
        &&& next.config == self.config
        &&& next.idempotency_key == self.idempotency_key
        &&& match (self.stage, event) {
            (Stage::Project, Event::Project(delivery)) => self.is_after_project(
                delivery,
                next.stage,
                step,
            ),
            (Stage::Period { project }, Event::Period(delivery)) => self.is_after_period(
                project,
                delivery,
                next.stage,
                step,
            ),
            (Stage::Usage { project, period }, Event::Usage(delivery)) => self.is_after_usage(
                project,
                period,
                delivery,
                next.stage,
                step,
            ),
            (Stage::Cost { project, period }, Event::Cost(cost)) => self.is_after_cost(
                project,
                period,
                cost,
                next.stage,
                step,
            ),
            (Stage::Token { billing }, Event::Token(delivery)) => self.is_after_token(
                billing,
                delivery,
                next.stage,
                step,
            ),
            (
                Stage::Submission { access_token },
                Event::Submission(delivery),
            ) => self.is_after_submission(access_token, delivery, next.stage, step),
            (Stage::Pdf { mail, invoice_number }, Event::Pdf(delivery)) => self.is_after_pdf(
                mail,
                invoice_number,
                delivery,
                next.stage,
                step,
            ),
            (Stage::Mail { mail }, Event::Mail(outcome)) => self.is_after_mail(
                mail,
                outcome,
                next.stage,
                step,
            ),
            _ => false,
        }
    }
}

impl Workflow {
    fn at(self, stage: Stage, action: Action) -> (r: (Workflow, Step))
        ensures
            r.0.config == self.config,
            r.0.idempotency_key == self.idempotency_key,
            r.0.stage == stage,
            r.1.printed() == Seq::<LineView>::empty(),
            r.1.action == action,
    {
        (Workflow { stage, ..self }, Step::quietly(action))
    }

    fn failed(self, failure: Failure) -> (r: (Workflow, Step))
        ensures
            r.0.config == self.config,
            r.0.idempotency_key == self.idempotency_key,
            r.0.stage is Over,
            r.1.fails(failure@),
    {
        self.at(Stage::Over, Action::Fail(failure))
    }

    fn finished(self, lines: Vec<Line>) -> (r: (Workflow, Step))
        ensures
            r.0.config == self.config,
            r.0.idempotency_key == self.idempotency_key,
            r.0.stage is Over,
            r.1.finishes(lines@.map_values(|line: Line| line@)),
    {
        (Workflow { stage: Stage::Over, ..self }, Step { lines, action: Action::Finish })
    }

    fn finished_with_warning(self, failure: &Failure) -> (r: (Workflow, Step))
        ensures
            r.0.config == self.config,
            r.0.idempotency_key == self.idempotency_key,
            r.0.stage is Over,
            r.1.finishes(seq![warning_line(failure@)]),
    {
        let mut lines: Vec<Line> = Vec::new();
        warn(&mut lines, failure);
        let r = self.finished(lines);
        proof {
            assert(r.1.printed() == seq![warning_line(failure@)]);
        }
        r
    }

    /// A run with a key for its invoice.
    pub fn with_key(config: Config, idempotency_key: String) -> (r: (Workflow, Step))
        ensures
            r.0.config == config,
            r.0.idempotency_key == idempotency_key,
            r.0.is_start(r.1),
    {
        let workflow = Workflow { config, idempotency_key, stage: Stage::Over };
        let railway = RailwayClient::new(workflow.config.railway.clone());
        match railway.fetch_project_identity() {
            Ok(request) => workflow.at(Stage::Project, Action::FetchProject(request)),
            Err(failure) => workflow.failed(failure),
        }
    }

    /// A run with a new key for its invoice.
    pub fn start(config: Config) -> (r: (Workflow, Step))
        ensures
            r.0.config == config,
            exists|id: Seq<char>|
                keys::is_uuid_text(id) && keys::is_drawn(id) && r.0.idempotency_key@
                    == #[trigger] keys::key_text(config.invoice.idempotency_prefix@, id),
            r.0.is_start(r.1),
    {
        let key = keys::new_idempotency_key(config.invoice.idempotency_prefix.as_str());
        Workflow::with_key(config, key)
    }
}

impl Workflow {
    /// The run goes on as before, but for its stage.
    spec fn kept_by(&self, next: Workflow) -> bool {
        next.config == self.config && next.idempotency_key == self.idempotency_key
    }

    fn after_project(self, delivery: GraphQlDelivery<ProjectOnlyEnvelope>) -> (r: (Workflow, Step))
        ensures
            self.kept_by(r.0),
            self.is_after_project(delivery, r.0.stage, r.1),
    {
        let railway = RailwayClient::new(self.config.railway.clone());
        let project = match railway.project_identity(delivery) {
            Ok(project) => project,
            Err(failure) => {
                return self.failed(failure);
            },
        };
        match railway.fetch_previous_billing_period() {
            Ok(request) => self.at(Stage::Period { project }, Action::FetchPeriod(request)),
            Err(failure) => self.failed(failure),
        }
    }

    fn after_period(
        self,
        project: RailwayProject,
        delivery: GraphQlDelivery<WorkspaceEnvelope>,
    ) -> (r: (Workflow, Step))
        ensures
            self.kept_by(r.0),
            self.is_after_period(project, delivery, r.0.stage, r.1),
    {
        let railway = RailwayClient::new(self.config.railway.clone());
        let period = match railway.previous_billing_period(delivery) {
            Ok(period) => period,
            Err(failure) => {
                return self.failed(failure);
            },
        };
        match railway.fetch_project_cost(&period) {
            Ok(request) => self.at(Stage::Usage { project, period }, Action::FetchUsage(request)),
            Err(failure) => self.failed(failure),
        }
    }

    fn after_usage(
        self,
        project: RailwayProject,
        period: BillingPeriod,
        delivery: GraphQlDelivery<UsageEnvelope>,
    ) -> (r: (Workflow, Step))
        ensures
            self.kept_by(r.0),
            self.is_after_usage(project, period, delivery, r.0.stage, r.1),
    {
        let railway = RailwayClient::new(self.config.railway.clone());
        match railway.project_charges(delivery) {
            Ok(charges) => self.at(Stage::Cost { project, period }, Action::SumCharges(charges)),
            Err(failure) => self.failed(failure),
        }
    }

    fn after_cost(self, project: RailwayProject, period: BillingPeriod, cost: Amount) -> (r: (
        Workflow,
        Step,
    ))
        ensures
            self.kept_by(r.0),
            self.is_after_cost(project, period, cost, r.0.stage, r.1),
    {
        let railway = RailwayClient::new(self.config.railway.clone());
        let billing = railway.fetch_project_billing(project, &period, cost);
        let oidc = OidcClient::new(self.config.oidc.clone());
        let request = oidc.fetch_access_token();
        self.at(Stage::Token { billing }, Action::FetchToken(request))
    }

    fn after_token(
        self,
        billing: ProjectBilling,
        delivery: Delivery<Decoded<AccessTokenResponse>>,
    ) -> (r: (Workflow, Step))
        ensures
            self.kept_by(r.0),
            self.is_after_token(billing, delivery, r.0.stage, r.1),
    {
        let oidc = OidcClient::new(self.config.oidc.clone());
        let token = match oidc.access_token(delivery) {
            Ok(token) => token,
            Err(failure) => {
                return self.failed(failure);
            },
        };
        let invoice = match Invoice::from_billing(
            &self.config,
            &billing,
            self.idempotency_key.clone(),
        ) {
            Ok(invoice) => invoice,
            Err(failure) => {
                return self.failed(failure);
            },
        };
        let payload = match xml::build_invoice_xml(&invoice) {
            Ok(payload) => payload,
            Err(failure) => {
                return self.failed(failure);
            },
        };
        let santinvoice = SantInvoiceClient::new(self.config.santinvoice.clone());
        let request = santinvoice.submit_invoice(
            token.access_token.as_str(),
            invoice.idempotency_key.as_str(),
            payload.as_str(),
        );
        proof {
            assert(invoice.is_of(self.config, billing, self.idempotency_key@));
        }
        self.at(
            Stage::Submission { access_token: token.access_token },
            Action::Submit(request),
        )
    }

    fn after_submission(self, access_token: String, delivery: Delivery<HttpReply>) -> (r: (
        Workflow,
        Step,
    ))
        ensures
            self.kept_by(r.0),
            self.is_after_submission(access_token, delivery, r.0.stage, r.1),
    {
        let santinvoice = SantInvoiceClient::new(self.config.santinvoice.clone());
        let submission = match santinvoice.submission_result(delivery) {
            Ok(submission) => submission,
            Err(failure) => {
                return self.failed(failure);
            },
        };
        let mut lines = report_submission(&submission);
        let ghost submitted = submitted_line(
            submission.status,
            config::option_view(submission.invoice_number),
        );
        let mail = match &self.config.pdf_email {
            Some(mail) => mail.clone(),
            None => {
                return self.finished(lines);
            },
        };
        match submission.invoice_number {
            Some(invoice_number) => {
                let request = santinvoice.download_invoice_pdf(
                    access_token.as_str(),
                    invoice_number.as_str(),
                );
                (
                    Workflow { stage: Stage::Pdf { mail, invoice_number }, ..self },
                    Step { lines, action: Action::DownloadPdf(request) },
                )
            },
            None => {
                warn(
                    &mut lines,
                    &Failure::new("invoice number missing from SantInvoice response".to_owned()),
                );
                let r = self.finished(lines);
                proof {
                    assert(r.1.printed() == seq![submitted, warning_line(no_number())]);
                }
                r
            },
        }
    }

    fn after_pdf(
        self,
        mail: PdfEmailConfig,
        invoice_number: String,
        delivery: Delivery<PdfReply>,
    ) -> (r: (Workflow, Step))
        requires
            delivery matches Delivery::Read(pdf) ==> email::is_encodable(pdf.content@.len()),
        ensures
            self.kept_by(r.0),
            self.is_after_pdf(mail, invoice_number, delivery, r.0.stage, r.1),
    {
        let santinvoice = SantInvoiceClient::new(self.config.santinvoice.clone());
        let pdf_bytes = match santinvoice.invoice_pdf(delivery) {
            Ok(pdf_bytes) => pdf_bytes,
            Err(failure) => {
                return self.finished_with_warning(&failure);
            },
        };
        match email::send_invoice_email(
            &mail,
            invoice_number.as_str(),
            pdf_bytes.as_slice(),
        ) {
            Ok(email) => self.at(Stage::Mail { mail }, Action::SendEmail(email)),
            Err(failure) => self.finished_with_warning(&failure),
        }
    }

    fn after_mail(self, mail: PdfEmailConfig, outcome: Result<(), MailFault>) -> (r: (
        Workflow,
        Step,
    ))
        ensures
            self.kept_by(r.0),
            self.is_after_mail(mail, outcome, r.0.stage, r.1),
    {
        match outcome {
            Ok(()) => {
                let line = "pdf emailed: recipient=".to_owned().concat(
                    mail.recipient_email.as_str(),
                );
                self.finished(output(line))
            },
            Err(fault) => {
                let failure = email::mail_failure(fault, &mail, &self.config.invoice);
                self.finished_with_warning(&failure)
            },
        }
    }

    /// Goes on with an event that the run waits for.
    pub fn advance(self, event: Event) -> (r: (Workflow, Step))
        requires
            self.expects(event),
        ensures
            self.is_step(event, r.0, r.1),
    {
        let Workflow { config, idempotency_key, stage } = self;
        let run = Workflow { config, idempotency_key, stage: Stage::Over };
        match (stage, event) {
            (Stage::Project, Event::Project(delivery)) => run.after_project(delivery),
            (Stage::Period { project }, Event::Period(delivery)) => run.after_period(
                project,
                delivery,
            ),
            (Stage::Usage { project, period }, Event::Usage(delivery)) => run.after_usage(
                project,
                period,
                delivery,
            ),
            (Stage::Cost { project, period }, Event::Cost(cost)) => run.after_cost(
                project,
                period,
                cost,
            ),
            (Stage::Token { billing }, Event::Token(delivery)) => run.after_token(
                billing,
                delivery,
            ),
            (
                Stage::Submission { access_token },
                Event::Submission(delivery),
            ) => run.after_submission(access_token, delivery),
            (Stage::Pdf { mail, invoice_number }, Event::Pdf(delivery)) => run.after_pdf(
                mail,
                invoice_number,
                delivery,
            ),
            (Stage::Mail { mail }, Event::Mail(outcome)) => run.after_mail(mail, outcome),
            _ => vstd::pervasive::unreached(),
        }
    }
}

} // verus!
