//! What holds of every run.

use vstd::prelude::*;

use crate::calendar;
use crate::calendar::BillingPeriod;
use crate::clients;
use crate::config;
use crate::email;
use crate::http::BodyView;
use crate::http::VariableView;
use crate::models;
use crate::models::Invoice;
use crate::models::ProjectBilling;
use crate::text;
use crate::workflow;
use crate::workflow::Action;
use crate::workflow::Event;
use crate::workflow::Line;
use crate::workflow::LineView;
use crate::workflow::Stage;
use crate::workflow::Step;
use crate::workflow::Workflow;
use crate::xml;

verus! {

/// A run as its states, the events between them, and the steps: the first step begins it, and
/// each event leads to one more.
pub open spec fn is_run(states: Seq<Workflow>, events: Seq<Event>, steps: Seq<Step>) -> bool {
    &&& states.len() == events.len() + 1
    &&& steps.len() == events.len() + 1
    &&& states[0].is_start(steps[0])
    &&& forall|k: int|
        0 <= k < events.len() ==> states[k].expects(#[trigger] events[k]) && states[k].is_step(
            events[k],
            states[k + 1],
            steps[k + 1],
        )
}

/// How many events a run can still wait for.
pub open spec fn rank(stage: Stage) -> int {
    match stage {
        Stage::Project => 8,
        Stage::Period { .. } => 7,
        Stage::Usage { .. } => 6,
        Stage::Cost { .. } => 5,
        Stage::Token { .. } => 4,
        Stage::Submission { .. } => 3,
        Stage::Pdf { .. } => 2,
        Stage::Mail { .. } => 1,
        Stage::Over => 0,
    }
}

/// The action leads to what the stage waits for; where it waits for nothing, the run has succeeded
/// or failed.
pub open spec fn leads_to(action: Action, stage: Stage) -> bool {
    match stage {
        Stage::Project => action is FetchProject,
        Stage::Period { .. } => action is FetchPeriod,
        Stage::Usage { .. } => action is FetchUsage,
        Stage::Cost { .. } => action is SumCharges,
        Stage::Token { .. } => action is FetchToken,
        Stage::Submission { .. } => action is Submit,
        Stage::Pdf { .. } => action is DownloadPdf,
        Stage::Mail { .. } => action is SendEmail,
        Stage::Over => action is Finish || action is Fail,
    }
}

/// Each event brings a run to its next stage or to its end, and the action is one that leads on
/// from there. The configuration and the key stay as they are.
pub proof fn runs_go_forward(run: Workflow, event: Event, next: Workflow, step: Step)
    requires
        run.expects(event),
        run.is_step(event, next, step),
    ensures
        rank(next.stage) == rank(run.stage) - 1 || next.stage is Over,
        rank(next.stage) < rank(run.stage),
        leads_to(step.action, next.stage),
        next.config == run.config,
        next.idempotency_key == run.idempotency_key,
{
}

/// The state after `k` events is the one `k` stages on, or the end; it holds the configuration and
/// the key of the first, and the step before it leads to it.
pub proof fn stage_is_told_by_events(
    states: Seq<Workflow>,
    events: Seq<Event>,
    steps: Seq<Step>,
    k: int,
)
    requires
        is_run(states, events, steps),
        0 <= k <= events.len(),
    ensures
        rank(states[k].stage) == 8 - k || states[k].stage is Over,
        k < events.len() ==> rank(states[k].stage) == 8 - k,
        leads_to(steps[k].action, states[k].stage),
        states[k].config == states[0].config,
        states[k].idempotency_key == states[0].idempotency_key,
    decreases k,
{
    if k > 0 {
        stage_is_told_by_events(states, events, steps, k - 1);
        assert(states[k - 1].expects(events[k - 1]));
        runs_go_forward(states[k - 1], events[k - 1], states[k], steps[k]);
    }
    if k < events.len() {
        assert(states[k].expects(events[k]));
    }
}

/// A run takes at most eight events.
pub proof fn runs_end(states: Seq<Workflow>, events: Seq<Event>, steps: Seq<Step>)
    requires
        is_run(states, events, steps),
    ensures
        events.len() <= 8,
{
    if events.len() > 8 {
        stage_is_told_by_events(states, events, steps, 8);
        assert(states[8].expects(events[8]));
    }
}

/// A run submits an invoice at most once.
pub proof fn runs_submit_once(
    states: Seq<Workflow>,
    events: Seq<Event>,
    steps: Seq<Step>,
    i: int,
    j: int,
)
    requires
        is_run(states, events, steps),
        0 <= i < steps.len(),
        0 <= j < steps.len(),
        steps[i].action is Submit,
        steps[j].action is Submit,
    ensures
        i == j,
{
    stage_is_told_by_events(states, events, steps, i);
    stage_is_told_by_events(states, events, steps, j);
}

/// What has come of the things done before an invoice is submitted: each was answered, and nothing
/// was wrong.
pub open spec fn is_ready_to_submit(events: Seq<Event>) -> bool {
    &&& events.len() >= 5
    &&& events[0] matches Event::Project(project)
    &&& clients::project_problem(project) is None
    &&& events[1] matches Event::Period(period)
    &&& clients::period_problem(period) is None
    &&& events[2] matches Event::Usage(usage)
    &&& clients::usage_problem(usage) is None
    &&& events[3] matches Event::Cost(cost)
    &&& !models::is_not_chargeable(cost)
    &&& events[4] matches Event::Token(token)
    &&& clients::access_token_problem(token) is None
}

/// The billing charges the cost to the project, for the completed period before the current one,
/// all of which the events tell.
pub open spec fn is_billing_of(
    billing: ProjectBilling,
    period: BillingPeriod,
    run: Workflow,
    events: Seq<Event>,
) -> bool {
    &&& calendar::is_period_before(period, clients::period_boundary(events[1]->Period_0))
    &&& workflow::is_billing(
        billing,
        run.config,
        clients::project_of(clients::graphql_data(events[0]->Project_0))->0,
        period,
        events[3]->Cost_0,
    )
}

/// What a run submits is the invoice for what it found out: the cost that it got for its charges,
/// the project and the completed period, under its key and with the token that it got.
pub proof fn submitted_invoice_is_for_the_billing(
    states: Seq<Workflow>,
    events: Seq<Event>,
    steps: Seq<Step>,
    k: int,
)
    requires
        is_run(states, events, steps),
        0 <= k < steps.len(),
        steps[k].action is Submit,
    ensures
        k == 5,
        is_ready_to_submit(events),
        steps[3].action is SumCharges,
        steps[3].action->SumCharges_0@ == clients::charges(
            clients::usage_of(clients::graphql_data(events[2]->Usage_0))->0@,
            states[0].config.railway.project_id@,
        ),
        exists|billing: ProjectBilling, period: BillingPeriod|
            #![trigger is_billing_of(billing, period, states[0], events)]
            is_billing_of(billing, period, states[0], events) && workflow::submits_invoice_for(
                steps[5].action->Submit_0@,
                states[0].config,
                billing,
                events[4]->Token_0->Read_0.value->Ok_0.access_token@,
                states[0].idempotency_key@,
            ),
        clients::start_is_read_back(events[1]->Period_0),
{
    stage_is_told_by_events(states, events, steps, k);
    stage_is_told_by_events(states, events, steps, 0);
    stage_is_told_by_events(states, events, steps, 1);
    stage_is_told_by_events(states, events, steps, 2);
    stage_is_told_by_events(states, events, steps, 3);
    stage_is_told_by_events(states, events, steps, 4);
    assert(states[0].is_step(events[0], states[1], steps[1]));
    assert(states[1].is_step(events[1], states[2], steps[2]));
    assert(states[2].is_step(events[2], states[3], steps[3]));
    assert(states[3].is_step(events[3], states[4], steps[4]));
    assert(states[4].is_step(events[4], states[5], steps[5]));
    let billing = states[4].stage->Token_billing;
    let period = states[3].stage->Cost_period;
    assert(is_billing_of(billing, period, states[0], events));
}

/// The invoice was submitted: the answer says so.
pub open spec fn is_submitted(events: Seq<Event>) -> bool {
    &&& events.len() > 5
    &&& events[5] matches Event::Submission(delivery)
    &&& clients::submission_problem(delivery) is None
}

/// The submission decides: a run that submitted its invoice does not fail, whatever comes of the
/// PDF and the mail.
pub proof fn submitted_runs_do_not_fail(
    states: Seq<Workflow>,
    events: Seq<Event>,
    steps: Seq<Step>,
    k: int,
)
    requires
        is_run(states, events, steps),
        is_submitted(events),
        0 <= k < steps.len(),
    ensures
        steps[k].action !is Fail,
{
    stage_is_told_by_events(states, events, steps, k);
    if k >= 6 {
        stage_is_told_by_events(states, events, steps, k - 1);
        assert(states[k - 1].is_step(events[k - 1], states[k], steps[k]));
    }
}

/// The submission decides: a run that succeeds has submitted its invoice.
pub proof fn successful_runs_have_submitted(
    states: Seq<Workflow>,
    events: Seq<Event>,
    steps: Seq<Step>,
    k: int,
)
    requires
        is_run(states, events, steps),
        0 <= k < steps.len(),
        steps[k].action is Finish,
    ensures
        is_submitted(events),
{
    stage_is_told_by_events(states, events, steps, k);
    if k > 0 {
        stage_is_told_by_events(states, events, steps, k - 1);
        assert(states[k - 1].is_step(events[k - 1], states[k], steps[k]));
    }
    if k > 5 {
        stage_is_told_by_events(states, events, steps, 5);
        stage_is_told_by_events(states, events, steps, 6);
        assert(states[5].is_step(events[5], states[6], steps[6]));
    }
}

/// A run downloads a PDF or sends a mail only after its invoice was submitted, and only where mail
/// delivery is configured.
pub proof fn mail_follows_submission(
    states: Seq<Workflow>,
    events: Seq<Event>,
    steps: Seq<Step>,
    k: int,
)
    requires
        is_run(states, events, steps),
        0 <= k < steps.len(),
        steps[k].action is DownloadPdf || steps[k].action is SendEmail,
    ensures
        is_submitted(events),
        states[0].config.pdf_email is Some,
{
    stage_is_told_by_events(states, events, steps, k);
    stage_is_told_by_events(states, events, steps, 5);
    assert(states[5].is_step(events[5], states[6], steps[6]));
    stage_is_told_by_events(states, events, steps, 6);
}

/// The line tells that the invoice was submitted.
pub open spec fn tells_of_submission(line: LineView) -> bool {
    exists|status: models::SubmissionStatus, number: Option<Seq<char>>|
        line == #[trigger] workflow::submitted_line(status, number)
}

/// The step after the answer to a submission that succeeded first prints that it did.
pub proof fn submission_is_told(
    states: Seq<Workflow>,
    events: Seq<Event>,
    steps: Seq<Step>,
)
    requires
        is_run(states, events, steps),
        is_submitted(events),
    ensures
        steps[6].printed().len() > 0,
        tells_of_submission(steps[6].printed()[0]),
        forall|k: int| 0 <= k < 6 ==> (#[trigger] steps[k]).printed().len() == 0,
{
    stage_is_told_by_events(states, events, steps, 5);
    assert(states[5].is_step(events[5], states[6], steps[6]));
    let reply = events[5]->Submission_0->Read_0;
    assert(steps[6].printed()[0] == workflow::submitted_line(
        clients::submission_status(reply.status)->0,
        clients::invoice_number_in(reply.body@),
    ));
    assert forall|k: int| 0 <= k < 6 implies (#[trigger] steps[k]).printed().len() == 0 by {
        if k > 0 {
            stage_is_told_by_events(states, events, steps, k - 1);
            stage_is_told_by_events(states, events, steps, k);
            assert(states[k - 1].is_step(events[k - 1], states[k], steps[k]));
        }
    }
}

/// The lines of a run, to the letter: what became of the invoice, with its number or the word
/// unknown; to whom the PDF was mailed; and what went wrong after the submission.
pub proof fn lines_are_these(
    status: models::SubmissionStatus,
    number: Option<Seq<char>>,
    recipient: Seq<char>,
    report: Seq<Seq<char>>,
)
    ensures
        workflow::submitted_line(status, number) == LineView::Output(
            "invoice submitted: status="@ + (if status is Created {
                "created"@
            } else {
                "duplicate"@
            }) + " invoice_number="@ + (if number is Some {
                number->0
            } else {
                "unknown"@
            }),
        ),
        workflow::emailed_line(recipient) == LineView::Output(
            "pdf emailed: recipient="@ + recipient,
        ),
        workflow::warning_line(report) == LineView::Warning(
            "post-submit warning: "@ + text::joined(report, ": "@),
        ),
        workflow::no_number() == seq!["invoice number missing from SantInvoice response"@],
{
}

/// The lines of a step are seen whole and in order.
pub proof fn steps_are_seen_whole(step: Step)
    ensures
        step.printed().len() == step.lines@.len(),
        forall|i: int|
            0 <= i < step.lines@.len() ==> {
                let seen = #[trigger] step.printed()[i];
                &&& step.lines@[i] matches Line::Output(s) ==> seen == LineView::Output(s@)
                &&& step.lines@[i] matches Line::Warning(s) ==> seen == LineView::Warning(s@)
            },
{
}

/// What is wrong with what came of the last thing done, before the invoice was submitted.
pub open spec fn what_went_wrong(run: Workflow, event: Event) -> config::Problem {
    match (run.stage, event) {
        (_, Event::Project(delivery)) => clients::project_problem(delivery),
        (_, Event::Period(delivery)) => clients::period_problem(delivery),
        (_, Event::Usage(delivery)) => clients::usage_problem(delivery),
        (Stage::Token { billing }, Event::Token(delivery)) => if clients::access_token_problem(
            delivery,
        ) is Some {
            clients::access_token_problem(delivery)
        } else if billing.amount.value@.sign is Zero || billing.amount.value@.sign is Negative {
            Some(seq!["Railway billing amount must be greater than zero"@])
        } else {
            None
        },
        (_, Event::Submission(delivery)) => clients::submission_problem(delivery),
        _ => None,
    }
}

/// Up to the submission a run goes on exactly where nothing is wrong, and else fails with what is
/// wrong, printing nothing. The token was found good before the run began.
pub proof fn runs_go_on_where_nothing_is_wrong(
    run: Workflow,
    event: Event,
    next: Workflow,
    step: Step,
)
    requires
        run.expects(event),
        run.is_step(event, next, step),
        rank(run.stage) >= 3,
        clients::token_problem(run.config.railway.token@) is None,
    ensures
        what_went_wrong(run, event) matches Some(report) ==> {
            &&& next.stage is Over
            &&& step.action matches Action::Fail(failure)
            &&& failure@ == report
            &&& step.printed().len() == 0
        },
        what_went_wrong(run, event) is None ==> step.action !is Fail,
        what_went_wrong(run, event) is None && rank(run.stage) > 3 ==> rank(next.stage) == rank(
            run.stage,
        ) - 1 && step.printed().len() == 0,
{
}

/// A run begins by asking for the project where its token can be sent, and else fails.
pub proof fn runs_begin_with_the_project(run: Workflow, step: Step)
    requires
        run.is_start(step),
    ensures
        step.printed().len() == 0,
        clients::token_problem(run.config.railway.token@) matches Some(report) ==> run.stage is Over
            && step.action is Fail && step.action->Fail_0@ == report,
        clients::token_problem(run.config.railway.token@) is None ==> run.stage is Project && (
        step.action matches Action::FetchProject(request) && request@ == clients::graphql_request(
            run.config.railway,
            clients::PROJECT_IDENTITY_QUERY@,
            seq![("projectId"@, VariableView::Text(run.config.railway.project_id@))],
        )),
{
}

/// What is sent on the way to the submission: the query for the workspace's period, the query for
/// the usage in the period just found, and the request for a token with the credentials.
pub proof fn runs_ask_for_what_they_need(
    run: Workflow,
    event: Event,
    next: Workflow,
    step: Step,
)
    requires
        run.expects(event),
        run.is_step(event, next, step),
    ensures
        step.action matches Action::FetchPeriod(request) ==> request@ == clients::graphql_request(
            run.config.railway,
            clients::BILLING_PERIOD_QUERY@,
            seq![("workspaceId"@, VariableView::Text(run.config.railway.workspace_id@))],
        ),
        step.action matches Action::FetchUsage(request) ==> next.stage is Usage && ({
            let period = next.stage->Usage_period;
            request@ == clients::graphql_request(
                run.config.railway,
                clients::USAGE_QUERY@,
                seq![
                    ("workspaceId"@, VariableView::Text(run.config.railway.workspace_id@)),
                    ("startDate"@, VariableView::Text(period.start@)),
                    ("endDate"@, VariableView::Text(period.end@)),
                    (
                        "measurements"@,
                        VariableView::List(
                            seq![
                                "MEMORY_USAGE_GB"@,
                                "CPU_USAGE"@,
                                "NETWORK_TX_GB"@,
                                "DISK_USAGE_GB"@,
                                "BACKUP_USAGE_GB"@,
                            ],
                        ),
                    ),
                ],
            )
        }),
        step.action matches Action::FetchToken(request) ==> request@ == clients::token_request(
            run.config.oidc,
        ) && next.stage is Token && ({
            let billing = next.stage->Token_billing;
            let project = run.stage->Cost_project;
            let period = run.stage->Cost_period;
            &&& run.stage is Cost
            &&& event is Cost
            &&& billing.project_id@ == project.id@
            &&& billing.project_name@ == project.name@
            &&& billing.amount.currency@ == run.config.railway.currency@
            &&& billing.amount.value@ == event->Cost_0@
            &&& billing.billing_from@ == period.from@
            &&& billing.billing_to@ == period.to@
        }),
        next.stage is Usage ==> run.stage is Period && next.stage->Usage_project
            == run.stage->Period_project,
        next.stage is Cost ==> run.stage is Usage && next.stage->Cost_project
            == run.stage->Usage_project && next.stage->Cost_period == run.stage->Usage_period,
{
}

/// A submitted invoice is told of, and then: nothing more where mail is not configured; a warning
/// where the reply gives no number; else the PDF of that number is downloaded.
pub proof fn submissions_lead_to_the_pdf(run: Workflow, event: Event, next: Workflow, step: Step)
    requires
        run.expects(event),
        run.is_step(event, next, step),
        run.stage is Submission,
        clients::submission_problem(event->Submission_0) is None,
    ensures
        ({
            let reply = event->Submission_0->Read_0;
            let status = if reply.status == 201 {
                models::SubmissionStatus::Created
            } else {
                models::SubmissionStatus::Duplicate
            };
            let number = clients::invoice_number_in(reply.body@);
            let lines = step.printed();
            &&& lines.len() >= 1
            &&& lines[0] == workflow::submitted_line(status, number)
            &&& run.config.pdf_email is None ==> step.action is Finish && lines.len() == 1
            &&& run.config.pdf_email is Some && number is None ==> step.action is Finish
                && lines.len() == 2 && lines[1] == workflow::warning_line(
                seq!["invoice number missing from SantInvoice response"@],
            )
            &&& run.config.pdf_email is Some && number is Some ==> lines.len() == 1 && (
            step.action matches Action::DownloadPdf(request) && request@ == clients::pdf_request(
                run.config.santinvoice,
                run.stage->Submission_access_token@,
                number->0,
            )) && next.stage is Pdf && next.stage->Pdf_mail == run.config.pdf_email->0
                && next.stage->invoice_number@ == number->0
        }),
{
}

/// A PDF is mailed where it was downloaded and the mailboxes read; what keeps it from that, or goes
/// wrong with the mail, is a warning, and the run still succeeds.
pub proof fn pdfs_lead_to_the_mail(run: Workflow, event: Event, next: Workflow, step: Step)
    requires
        run.expects(event),
        run.is_step(event, next, step),
    ensures
        run.stage matches Stage::Pdf { mail, invoice_number } ==> {
            let delivery = event->Pdf_0;
            let lines = step.printed();
            &&& clients::pdf_problem(delivery) matches Some(report) ==> step.action is Finish
                && lines == seq![workflow::warning_line(report)]
            &&& clients::pdf_problem(delivery) is None && email::email_problem(mail) is Some
                ==> step.action is Finish && lines == seq![
                workflow::warning_line(email::email_problem(mail)->0),
            ]
            &&& clients::pdf_problem(delivery) is None && email::email_problem(mail) is None
                ==> lines.len() == 0 && (step.action matches Action::SendEmail(sent) && sent.is_of(
                mail,
                invoice_number@,
                delivery->Read_0.content@,
            )) && next.stage == (Stage::Mail { mail })
        },
        run.stage matches Stage::Mail { mail } ==> {
            let lines = step.printed();
            &&& step.action is Finish
            &&& event->Mail_0 is Ok ==> lines == seq![
                workflow::emailed_line(mail.recipient_email@),
            ]
            &&& event->Mail_0 matches Err(fault) ==> lines == seq![
                workflow::warning_line(
                    email::mail_report(fault, mail, run.config.invoice.customer_email@),
                ),
            ]
        },
{
}

/// A run waits for one kind of event in each stage, and for none once it is over. Of a PDF it asks
/// only that its base64 text, four characters for every three bytes begun, fits in memory.
pub proof fn stages_wait_for_their_events(run: Workflow, event: Event)
    ensures
        run.expects(event) <==> (match event {
            Event::Project(_) => run.stage is Project,
            Event::Period(_) => run.stage is Period,
            Event::Usage(_) => run.stage is Usage,
            Event::Cost(_) => run.stage is Cost,
            Event::Token(_) => run.stage is Token,
            Event::Submission(_) => run.stage is Submission,
            Event::Pdf(delivery) => run.stage is Pdf && (delivery is Read ==> (
            delivery->Read_0.content@.len() + 2) / 3 * 4 <= isize::MAX),
            Event::Mail(_) => run.stage is Mail,
        }),
{
}

/// What is submitted is the document of the invoice for the billing, under the key of the run and
/// with the token that the reply gives, to the configured address.
pub proof fn submissions_carry_the_invoice(
    run: Workflow,
    event: Event,
    next: Workflow,
    step: Step,
)
    requires
        run.expects(event),
        run.is_step(event, next, step),
        step.action is Submit,
    ensures
        run.stage is Token,
        event is Token,
        next.stage is Submission,
        next.stage->Submission_access_token@
            == event->Token_0->Read_0.value->Ok_0.access_token@,
        exists|invoice: Invoice| #[trigger]
            invoice.is_of(run.config, run.stage->Token_billing, run.idempotency_key@) && ({
                let request = step.action->Submit_0@;
                let token = event->Token_0->Read_0.value->Ok_0.access_token@;
                &&& request.method is Post
                &&& request.url == text::without_trailing(run.config.santinvoice.base_url@, '/')
                    + "/submit/invoice"@
                &&& request.headers == seq![
                    ("authorization"@, "Bearer "@ + token),
                    ("X-Idempotency-Key"@, run.idempotency_key@),
                    ("content-type"@, "text/xml"@),
                ]
                &&& request.body == BodyView::Text(xml::document(invoice))
            }),
{
    let token = event->Token_0->Read_0.value->Ok_0.access_token@;
    let request = step.action->Submit_0@;
    let invoice = choose|invoice: Invoice| #[trigger]
        invoice.is_of(run.config, run.stage->Token_billing, run.idempotency_key@) && request
            == clients::submission_request(
            run.config.santinvoice,
            token,
            run.idempotency_key@,
            xml::document(invoice),
        );
    assert(invoice.is_of(run.config, run.stage->Token_billing, run.idempotency_key@));
}

} // verus!
