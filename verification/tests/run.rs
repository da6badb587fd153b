use railway_santinvoice::calendar::Date;
use railway_santinvoice::clients::GraphQlDelivery;
use railway_santinvoice::clients::GraphQlResponse;
use railway_santinvoice::clients::PdfReply;
use railway_santinvoice::clients::ProjectOnlyEnvelope;
use railway_santinvoice::clients::RailwayBillingPeriod;
use railway_santinvoice::clients::RailwayCustomer;
use railway_santinvoice::clients::RailwayProject;
use railway_santinvoice::clients::RailwayUsageRow;
use railway_santinvoice::clients::RailwayUsageTags;
use railway_santinvoice::clients::RailwayWorkspace;
use railway_santinvoice::clients::UsageEnvelope;
use railway_santinvoice::clients::WorkspaceEnvelope;
use railway_santinvoice::config::Config;
use railway_santinvoice::config::InvoiceConfig;
use railway_santinvoice::config::OidcConfig;
use railway_santinvoice::config::PdfEmailConfig;
use railway_santinvoice::config::RailwayConfig;
use railway_santinvoice::config::SantInvoiceConfig;
use railway_santinvoice::email::MailFault;
use railway_santinvoice::http::Body;
use railway_santinvoice::http::Decoded;
use railway_santinvoice::http::Delivery;
use railway_santinvoice::http::HttpReply;
use railway_santinvoice::models::AccessTokenResponse;
use railway_santinvoice::models::Amount;
use railway_santinvoice::models::Sign;
use railway_santinvoice::workflow::Action;
use railway_santinvoice::workflow::Event;
use railway_santinvoice::workflow::Line;
use railway_santinvoice::workflow::Stage;
use railway_santinvoice::workflow::Step;
use railway_santinvoice::workflow::Workflow;
use railway_santinvoice::xml::find_xml_value;

const NUMBERED: &str = "<processedDetails><number>INV-9</number></processedDetails>";

fn config(mail: bool) -> Config {
    Config {
        railway: RailwayConfig {
            graphql_url: "https://railway.example/graphql".to_string(),
            token: "token".to_string(),
            workspace_id: "workspace".to_string(),
            project_id: "project".to_string(),
            project_name: "Project".to_string(),
            currency: "GBP".to_string(),
        },
        oidc: OidcConfig {
            token_url: "https://oidc.example/token".to_string(),
            client_id: "client".to_string(),
            client_secret: "secret".to_string(),
            scope: None,
            audience: None,
        },
        santinvoice: SantInvoiceConfig {
            base_url: "https://santinvoice.example".to_string(),
        },
        invoice: InvoiceConfig {
            supplier_name: "Supplier".to_string(),
            supplier_address: "Supplier address".to_string(),
            supplier_email: "supplier@example.com".to_string(),
            customer_name: "Customer".to_string(),
            customer_address: "Customer address".to_string(),
            customer_email: "customer@example.com".to_string(),
            payment_due_by: Date::from_ymd_opt(2026, 9, 30).unwrap(),
            notes: None,
            service_summary: "Railway billing".to_string(),
            service_details: "Usage".to_string(),
            idempotency_prefix: "test".to_string(),
        },
        pdf_email: if mail {
            Some(PdfEmailConfig {
                recipient_email: "accounts@example.com".to_string(),
                sender_email: "billing@example.com".to_string(),
                smtp_host: "smtp.example.com".to_string(),
                smtp_port: 587,
                smtp_username: "mailer".to_string(),
                smtp_password: "hunter".to_string(),
                smtp_starttls: true,
                subject: "Invoice".to_string(),
                body: "Attached.".to_string(),
            })
        } else {
            None
        },
    }
}

fn answer<T>(data: T) -> GraphQlDelivery<T> {
    Delivery::Read(Decoded {
        reply: reply(200, ""),
        value: Ok(GraphQlResponse {
            data: Some(data),
            errors: None,
        }),
    })
}

fn reply(status: u16, body: &str) -> HttpReply {
    HttpReply {
        status,
        status_text: status.to_string(),
        body: body.to_string(),
    }
}

fn unsent<T>() -> Delivery<T> {
    Delivery::Unsent {
        cause: "refused".to_string(),
    }
}

fn project() -> Event {
    Event::Project(answer(ProjectOnlyEnvelope {
        project: Some(RailwayProject {
            id: "project".to_string(),
            name: "Shop".to_string(),
        }),
    }))
}

fn period() -> Event {
    Event::Period(answer(WorkspaceEnvelope {
        workspace: Some(RailwayWorkspace {
            customer: RailwayCustomer {
                billing_period: RailwayBillingPeriod {
                    start: "2026-09-08T00:00:00Z".to_string(),
                },
            },
        }),
    }))
}

fn usage() -> Event {
    let row = |project: &str| RailwayUsageRow {
        measurement: "CPU_USAGE".to_string(),
        tags: RailwayUsageTags {
            project_id: Some(project.to_string()),
        },
    };
    Event::Usage(answer(UsageEnvelope {
        usage: Some(vec![row("other"), row("project")]),
    }))
}

fn cost(sign: Sign) -> Event {
    let text = match sign {
        Sign::Negative => "-30.40",
        Sign::Zero => "0.00",
        Sign::Positive => "30.40",
        Sign::Undefined => "NaN",
    };
    Event::Cost(Amount::new(sign, text.to_string()).unwrap())
}

fn token() -> Event {
    Event::Token(Delivery::Read(Decoded {
        reply: reply(200, ""),
        value: Ok(AccessTokenResponse {
            access_token: "access".to_string(),
            token_type: None,
            expires_in: None,
        }),
    }))
}

fn submission(status: u16, body: &str) -> Event {
    Event::Submission(Delivery::Read(reply(status, body)))
}

fn pdf(status: u16) -> Event {
    Event::Pdf(Delivery::Read(PdfReply {
        reply: reply(status, "gone"),
        content: vec![37, 80, 68, 70],
    }))
}

fn advance(workflow: Workflow, event: Event) -> (Workflow, Step) {
    assert!(workflow.accepts(&event));
    workflow.advance(event)
}

fn run(config: Config, events: Vec<Event>) -> (Workflow, Step) {
    let mut state = Workflow::with_key(config, "test-key".to_string());
    for event in events {
        state = advance(state.0, event);
    }
    state
}

fn upto_submission() -> Vec<Event> {
    vec![project(), period(), usage(), cost(Sign::Positive), token()]
}

fn submitted(mail: bool, status: u16, body: &str) -> (Workflow, Step) {
    let mut events = upto_submission();
    events.push(submission(status, body));
    run(config(mail), events)
}

fn printed(step: &Step) -> Vec<String> {
    step.lines
        .iter()
        .map(|line| match line {
            Line::Output(s) => format!("out: {s}"),
            Line::Warning(s) => format!("err: {s}"),
        })
        .collect()
}

fn failure(step: &Step) -> String {
    match &step.action {
        Action::Fail(failure) => failure.to_string(),
        other => panic!("{other:?}"),
    }
}

#[test]
fn a_run_asks_for_one_thing_after_the_other() {
    let (workflow, step) = run(config(false), vec![]);
    assert!(matches!(step.action, Action::FetchProject(_)));
    let (workflow, step) = advance(workflow, project());
    assert!(matches!(step.action, Action::FetchPeriod(_)));
    let (workflow, step) = advance(workflow, period());
    assert!(matches!(step.action, Action::FetchUsage(_)));
    let (workflow, step) = advance(workflow, usage());
    match &step.action {
        Action::SumCharges(charges) => {
            assert_eq!(charges.len(), 1);
            assert_eq!(charges[0].row, 1);
        }
        other => panic!("{other:?}"),
    }
    let (workflow, step) = advance(workflow, cost(Sign::Positive));
    assert!(matches!(step.action, Action::FetchToken(_)));
    let (workflow, step) = advance(workflow, token());
    match step.action {
        Action::Submit(request) => {
            let header = |name: &str| {
                let found = request.headers.iter().find(|h| h.0 == name);
                found.map(|h| h.1.clone())
            };
            assert_eq!(header("X-Idempotency-Key").as_deref(), Some("test-key"));
            assert_eq!(header("authorization").as_deref(), Some("Bearer access"));
            let body = match request.body {
                Body::Text(body) => body,
                other => panic!("{other:?}"),
            };
            assert_eq!(find_xml_value(&body, "debit").as_deref(), Some("30.40"));
            assert_eq!(find_xml_value(&body, "date").as_deref(), Some("2026-09-07"));
            assert!(body.contains("Project: Shop\nProject ID: project\n"));
            assert!(body.contains("defaultCurrency=\"GBP\""));
        }
        other => panic!("{other:?}"),
    }
    let (workflow, step) = advance(workflow, submission(201, NUMBERED));
    assert!(matches!(step.action, Action::Finish));
    assert!(matches!(workflow.stage, Stage::Over));
    assert_eq!(
        printed(&step),
        ["out: invoice submitted: status=created invoice_number=INV-9"]
    );
}

#[test]
fn a_new_run_draws_a_key_with_the_prefix() {
    let (workflow, step) = Workflow::start(config(false));
    assert!(workflow.idempotency_key.starts_with("test-"));
    assert_eq!(workflow.idempotency_key.len(), 41);
    assert!(matches!(step.action, Action::FetchProject(_)));
}

#[test]
fn a_submission_may_come_without_a_number() {
    let (_, step) = submitted(false, 200, "");
    assert!(matches!(step.action, Action::Finish));
    assert_eq!(
        printed(&step),
        ["out: invoice submitted: status=duplicate invoice_number=unknown"]
    );
    let (_, step) = submitted(true, 201, "");
    assert!(matches!(step.action, Action::Finish));
    assert_eq!(
        printed(&step),
        [
            "out: invoice submitted: status=created invoice_number=unknown",
            "err: post-submit warning: invoice number missing from SantInvoice response"
        ]
    );
}

#[test]
fn the_pdf_is_mailed_where_that_is_configured() {
    let (workflow, step) = submitted(true, 201, NUMBERED);
    match &step.action {
        Action::DownloadPdf(request) => assert_eq!(
            request.url,
            "https://santinvoice.example/pdf-statement/invoice/INV-9"
        ),
        other => panic!("{other:?}"),
    }
    assert_eq!(printed(&step).len(), 1);
    let (workflow, step) = advance(workflow, pdf(200));
    match &step.action {
        Action::SendEmail(email) => {
            assert_eq!(email.attachment, [37, 80, 68, 70]);
            assert_eq!(email.attachment_name, "invoice-INV-9.pdf");
        }
        other => panic!("{other:?}"),
    }
    let (workflow, step) = advance(workflow, Event::Mail(Ok(())));
    assert!(matches!(step.action, Action::Finish));
    assert!(matches!(workflow.stage, Stage::Over));
    assert_eq!(
        printed(&step),
        ["out: pdf emailed: recipient=accounts@example.com"]
    );
}

#[test]
fn what_goes_wrong_after_the_submission_is_a_warning() {
    let (workflow, _) = submitted(true, 201, NUMBERED);
    let (_, step) = advance(workflow, pdf(404));
    assert!(matches!(step.action, Action::Finish));
    assert_eq!(
        printed(&step),
        ["err: post-submit warning: SantInvoice PDF request failed with status 404: gone"]
    );

    let (workflow, _) = submitted(true, 201, NUMBERED);
    let (_, step) = advance(workflow, Event::Pdf(unsent()));
    assert!(matches!(step.action, Action::Finish));
    assert_eq!(
        printed(&step),
        ["err: post-submit warning: failed to fetch SantInvoice PDF: refused"]
    );

    let (workflow, _) = submitted(true, 201, NUMBERED);
    let (workflow, _) = advance(workflow, pdf(200));
    let fault = MailFault::Send {
        cause: "greylisted".to_string(),
    };
    let (_, step) = advance(workflow, Event::Mail(Err(fault)));
    assert!(matches!(step.action, Action::Finish));
    assert_eq!(
        printed(&step),
        ["err: post-submit warning: failed to send invoice email for customer \
          customer@example.com: greylisted"]
    );
}

#[test]
fn a_wrong_address_is_a_warning() {
    let mut wrong = config(true);
    if let Some(mail) = wrong.pdf_email.as_mut() {
        mail.recipient_email = "nobody".to_string();
    }
    let mut events = upto_submission();
    events.push(submission(200, NUMBERED));
    events.push(pdf(200));
    let (_, step) = run(wrong, events);
    assert!(matches!(step.action, Action::Finish));
    assert_eq!(
        printed(&step),
        ["err: post-submit warning: invalid email address: nobody: Invalid input"]
    );
}

#[test]
fn what_goes_wrong_before_fails_the_run() {
    let mut prefixed = config(false);
    prefixed.railway.token = "Bearer token".to_string();
    let (workflow, step) = run(prefixed, vec![]);
    assert!(matches!(workflow.stage, Stage::Over));
    assert_eq!(
        failure(&step),
        "RAILWAY_TOKEN must not include a Bearer prefix for a Railway project token"
    );

    let last = |events: Vec<Event>| {
        let (workflow, step) = run(config(true), events);
        assert!(matches!(workflow.stage, Stage::Over));
        assert!(step.lines.is_empty());
        failure(&step)
    };
    assert_eq!(
        last(vec![Event::Project(unsent())]),
        "failed to call Railway GraphQL API: refused"
    );
    assert_eq!(
        last(vec![project(), Event::Period(unsent())]),
        "Railway billing period query failed: failed to call Railway GraphQL API: refused"
    );
    assert_eq!(
        last(vec![project(), period(), Event::Usage(unsent())]),
        "Railway usage query failed: failed to call Railway GraphQL API: refused"
    );
    let mut events = upto_submission();
    events[4] = Event::Token(unsent());
    assert_eq!(last(events), "failed to call OIDC token endpoint: refused");
    let mut events = upto_submission();
    events.push(submission(422, "why"));
    assert_eq!(
        last(events),
        "SantInvoice rejected the invoice semantics: why"
    );
}

#[test]
fn amounts_that_are_not_above_zero_are_not_submitted() {
    for sign in [Sign::Zero, Sign::Negative] {
        let mut events = upto_submission();
        events[3] = cost(sign);
        let (_, step) = run(config(false), events);
        assert_eq!(
            failure(&step),
            "Railway billing amount must be greater than zero"
        );
    }
    let mut events = upto_submission();
    events[3] = cost(Sign::Zero);
    events[4] = Event::Token(unsent());
    let (_, step) = run(config(false), events);
    assert_eq!(failure(&step), "failed to call OIDC token endpoint: refused");
}

#[test]
fn each_stage_waits_for_its_own_event() {
    let events = || {
        vec![
            project(),
            period(),
            usage(),
            cost(Sign::Positive),
            token(),
            submission(201, NUMBERED),
            pdf(200),
            Event::Mail(Ok(())),
        ]
    };
    let (mut workflow, _) = run(config(true), vec![]);
    for (i, event) in events().into_iter().enumerate() {
        for (j, other) in events().iter().enumerate() {
            assert_eq!(workflow.accepts(other), i == j);
        }
        workflow = advance(workflow, event).0;
    }
    assert!(events().iter().all(|event| !workflow.accepts(event)));
}
