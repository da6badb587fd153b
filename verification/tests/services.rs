use railway_santinvoice::calendar::previous_billing_period;
use railway_santinvoice::calendar::BillingPeriod;
use railway_santinvoice::clients::billable_usage_measurements;
use railway_santinvoice::clients::build_railway_workspace_token_header;
use railway_santinvoice::clients::charges_for_usage;
use railway_santinvoice::clients::find_invoice_number;
use railway_santinvoice::clients::usage_price;
use railway_santinvoice::clients::GraphQlDelivery;
use railway_santinvoice::clients::GraphQlError;
use railway_santinvoice::clients::GraphQlErrorExtensions;
use railway_santinvoice::clients::GraphQlResponse;
use railway_santinvoice::clients::OidcClient;
use railway_santinvoice::clients::PdfReply;
use railway_santinvoice::clients::ProjectOnlyEnvelope;
use railway_santinvoice::clients::RailwayBillingPeriod;
use railway_santinvoice::clients::RailwayClient;
use railway_santinvoice::clients::RailwayCustomer;
use railway_santinvoice::clients::RailwayProject;
use railway_santinvoice::clients::RailwayUsageRow;
use railway_santinvoice::clients::RailwayUsageTags;
use railway_santinvoice::clients::RailwayWorkspace;
use railway_santinvoice::clients::SantInvoiceClient;
use railway_santinvoice::clients::UsageEnvelope;
use railway_santinvoice::clients::WorkspaceEnvelope;
use railway_santinvoice::config::OidcConfig;
use railway_santinvoice::config::RailwayConfig;
use railway_santinvoice::config::SantInvoiceConfig;
use railway_santinvoice::http::is_success;
use railway_santinvoice::http::Body;
use railway_santinvoice::http::Decoded;
use railway_santinvoice::http::Delivery;
use railway_santinvoice::http::HttpReply;
use railway_santinvoice::http::HttpRequest;
use railway_santinvoice::http::Method;
use railway_santinvoice::http::Variable;
use railway_santinvoice::models::AccessTokenResponse;
use railway_santinvoice::models::Amount;
use railway_santinvoice::models::Sign;
use railway_santinvoice::models::SubmissionStatus;

fn railway_with(token: &str) -> RailwayClient {
    RailwayClient::new(RailwayConfig {
        graphql_url: "https://railway.example/graphql".to_string(),
        token: token.to_string(),
        workspace_id: "workspace".to_string(),
        project_id: "project".to_string(),
        project_name: "Project".to_string(),
        currency: "GBP".to_string(),
    })
}

fn railway() -> RailwayClient {
    railway_with(" token ")
}

fn oidc(scope: Option<&str>, audience: Option<&str>) -> OidcClient {
    OidcClient::new(OidcConfig {
        token_url: "https://oidc.example/token".to_string(),
        client_id: "client".to_string(),
        client_secret: "secret".to_string(),
        scope: scope.map(|s| s.to_string()),
        audience: audience.map(|s| s.to_string()),
    })
}

fn santinvoice(base_url: &str) -> SantInvoiceClient {
    SantInvoiceClient::new(SantInvoiceConfig {
        base_url: base_url.to_string(),
    })
}

fn reply(status: u16, body: &str) -> HttpReply {
    HttpReply {
        status,
        status_text: format!("{status} Words"),
        body: body.to_string(),
    }
}

fn unsent<T>() -> Delivery<T> {
    Delivery::Unsent {
        cause: "refused".to_string(),
    }
}

fn unread<T>() -> Delivery<T> {
    Delivery::Unread {
        status: 200,
        status_text: "200 OK".to_string(),
        cause: "cut off".to_string(),
    }
}

fn refused_unread<T>() -> Delivery<T> {
    Delivery::Unread {
        status: 500,
        status_text: "500 Internal Server Error".to_string(),
        cause: "cut off".to_string(),
    }
}

fn answer<T>(data: Option<T>, errors: Option<Vec<GraphQlError>>) -> GraphQlDelivery<T> {
    Delivery::Read(Decoded {
        reply: reply(200, "{}"),
        value: Ok(GraphQlResponse { data, errors }),
    })
}

fn undecoded<T>() -> Delivery<Decoded<T>> {
    Delivery::Read(Decoded {
        reply: reply(502, "<html>"),
        value: Err("expected value".to_string()),
    })
}

fn error(message: &str, code: Option<&str>, trace_id: Option<&str>) -> GraphQlError {
    GraphQlError {
        message: message.to_string(),
        extensions: GraphQlErrorExtensions {
            code: code.map(|s| s.to_string()),
            trace_id: trace_id.map(|s| s.to_string()),
        },
    }
}

fn workspace(start: &str) -> WorkspaceEnvelope {
    WorkspaceEnvelope {
        workspace: Some(RailwayWorkspace {
            customer: RailwayCustomer {
                billing_period: RailwayBillingPeriod {
                    start: start.to_string(),
                },
            },
        }),
    }
}

fn row(measurement: &str, project: Option<&str>) -> RailwayUsageRow {
    RailwayUsageRow {
        measurement: measurement.to_string(),
        tags: RailwayUsageTags {
            project_id: project.map(|s| s.to_string()),
        },
    }
}

fn header<'a>(request: &'a HttpRequest, name: &str) -> Option<&'a str> {
    let found = request.headers.iter().find(|h| h.0 == name)?;
    Some(found.1.as_str())
}

fn variables(request: HttpRequest) -> (String, Vec<(String, Variable)>) {
    match request.body {
        Body::Graphql { query, variables } => (query, variables),
        _ => panic!("no query"),
    }
}

fn period() -> BillingPeriod {
    previous_billing_period("2026-09-08T00:00:00Z").unwrap()
}

#[test]
fn the_token_is_trimmed_and_has_no_prefix() {
    assert_eq!(
        build_railway_workspace_token_header("  abc \n").unwrap(),
        "Bearer abc"
    );
    assert_eq!(
        build_railway_workspace_token_header("bearer").unwrap(),
        "Bearer bearer"
    );
    assert_eq!(
        build_railway_workspace_token_header("Bearer  ").unwrap(),
        "Bearer Bearer"
    );
    for token in ["bearer x", " BEARER x", "Bearer  y"] {
        assert_eq!(
            build_railway_workspace_token_header(token).unwrap_err().chain,
            ["RAILWAY_TOKEN must not include a Bearer prefix for a Railway project token"]
        );
    }
}

#[test]
fn what_is_asked_for_has_a_price() {
    let names = billable_usage_measurements();
    assert_eq!(
        names,
        [
            "MEMORY_USAGE_GB",
            "CPU_USAGE",
            "NETWORK_TX_GB",
            "DISK_USAGE_GB",
            "BACKUP_USAGE_GB"
        ]
    );
    assert!(names.iter().all(|name| usage_price(name).is_some()));
}

#[test]
fn usage_of_the_project_is_charged_by_its_rows() {
    let rows = vec![
        row("CPU_USAGE", Some("project")),
        row("CPU_USAGE", Some("other")),
        row("CPU_USAGE", None),
        row("EPHEMERAL_DISK_USAGE_GB", Some("project")),
        row("NETWORK_TX_GB", Some("project")),
        row("CPU_USAGE", Some("project")),
    ];
    let charges = charges_for_usage(&rows, "project");
    let found: Vec<(usize, u32, u32)> = charges
        .iter()
        .map(|c| (c.row, c.price.hundredths, c.price.minutes))
        .collect();
    assert_eq!(
        found,
        [(0, 2000, 43_200), (4, 5, 1), (5, 2000, 43_200)]
    );
    assert!(charges_for_usage(&rows, "none").is_empty());
}

#[test]
fn queries_carry_the_token_and_their_variables() {
    let request = railway().fetch_project_identity().unwrap();
    assert_eq!(request.method, Method::Post);
    assert_eq!(request.url, "https://railway.example/graphql");
    assert_eq!(header(&request, "authorization"), Some("Bearer token"));
    assert_eq!(header(&request, "content-type"), Some("application/json"));
    assert_eq!(request.headers.len(), 2);
    let (query, list) = variables(request);
    assert!(query.contains("query ProjectIdentity($projectId: String!)"));
    assert_eq!(list.len(), 1);
    assert_eq!(list[0].0, "projectId");
    assert!(matches!(&list[0].1, Variable::Text(s) if s == "project"));

    let (query, list) = variables(railway().fetch_previous_billing_period().unwrap());
    assert!(query.contains("query WorkspaceBillingPeriod($workspaceId: String!)"));
    assert_eq!(list.len(), 1);
    assert_eq!(list[0].0, "workspaceId");
    assert!(matches!(&list[0].1, Variable::Text(s) if s == "workspace"));

    let (query, list) = variables(railway().fetch_project_cost(&period()).unwrap());
    assert!(query.contains("groupBy: [PROJECT_ID]"));
    assert!(query.contains("includeDeleted: true"));
    let names: Vec<&str> = list.iter().map(|v| v.0.as_str()).collect();
    assert_eq!(
        names,
        ["workspaceId", "startDate", "endDate", "measurements"]
    );
    assert!(matches!(&list[1].1, Variable::Text(s) if s == "2026-08-08T00:00:00+00:00"));
    assert!(matches!(&list[2].1, Variable::Text(s) if s == "2026-09-08T00:00:00+00:00"));
    assert!(matches!(&list[3].1, Variable::List(l) if *l == billable_usage_measurements()));
}

#[test]
fn tokens_that_no_header_can_hold_are_reported() {
    let client = railway_with("a\u{0}b");
    let chain = [
        "invalid Railway auth header value",
        "failed to parse header value",
    ];
    assert_eq!(client.fetch_project_identity().unwrap_err().chain, chain);
    assert_eq!(
        client.fetch_previous_billing_period().unwrap_err().to_string(),
        format!("Railway billing period query failed: {}", chain.join(": "))
    );
    assert_eq!(
        client.fetch_project_cost(&period()).unwrap_err().to_string(),
        format!("Railway usage query failed: {}", chain.join(": "))
    );
    assert!(railway_with("a\u{7F}b").fetch_project_identity().is_err());
    assert!(railway_with("a\tb").fetch_project_identity().is_ok());
    assert!(railway_with("aéb").fetch_project_identity().is_ok());
    let prefixed = railway_with("Bearer x").fetch_project_cost(&period());
    assert_eq!(
        prefixed.unwrap_err().chain,
        [
            "Railway usage query failed",
            "RAILWAY_TOKEN must not include a Bearer prefix for a Railway project token"
        ]
    );
}

#[test]
fn the_project_is_identified() {
    let project = RailwayProject {
        id: "id".to_string(),
        name: "Name".to_string(),
    };
    let envelope = ProjectOnlyEnvelope {
        project: Some(project),
    };
    let found = railway()
        .project_identity(answer(Some(envelope), None))
        .unwrap();
    assert_eq!((found.id.as_str(), found.name.as_str()), ("id", "Name"));

    let chain = |delivery| railway().project_identity(delivery).unwrap_err().chain;
    let absent = ["Railway GraphQL response did not include project data"];
    assert_eq!(chain(answer(None, None)), absent);
    let empty = ProjectOnlyEnvelope { project: None };
    assert_eq!(chain(answer(Some(empty), None)), absent);
    assert_eq!(
        chain(unsent()),
        ["failed to call Railway GraphQL API", "refused"]
    );
    assert_eq!(
        chain(unread()),
        [
            "failed to read Railway GraphQL response with status 200 OK",
            "cut off"
        ]
    );
    assert_eq!(
        chain(undecoded()),
        [
            "failed to decode Railway GraphQL response with status 502 Words: <html>",
            "expected value"
        ]
    );
}

#[test]
fn errors_of_a_reply_are_listed() {
    let errors = vec![
        error("one", Some("C"), Some("t")),
        error("two", Some("C"), None),
        error("three", None, Some("t")),
        error("four", None, None),
    ];
    let failure = railway().project_identity(answer(None, Some(errors)));
    assert_eq!(
        failure.unwrap_err().chain,
        ["Railway GraphQL returned errors: one (code: C, traceId: t); two (code: C); \
          three (traceId: t); four"]
    );
    let failure = railway().project_identity(answer(None, Some(Vec::new())));
    assert_eq!(
        failure.unwrap_err().chain,
        ["Railway GraphQL returned errors: "]
    );
}

#[test]
fn the_period_is_the_one_before() {
    let delivery = answer(Some(workspace("2026-09-08T00:00:00Z")), None);
    let found = railway().previous_billing_period(delivery).unwrap();
    assert_eq!(found.start, "2026-08-08T00:00:00+00:00");
    assert_eq!(found.to.to_string(), "2026-09-07");

    let chain = |delivery| {
        railway()
            .previous_billing_period(delivery)
            .unwrap_err()
            .chain
    };
    assert_eq!(
        chain(answer(Some(workspace("never")), None))[0],
        "Railway returned an invalid billing-period start"
    );
    let absent = ["Railway GraphQL response did not include workspace billing data"];
    assert_eq!(chain(answer(None, None)), absent);
    let empty = WorkspaceEnvelope { workspace: None };
    assert_eq!(chain(answer(Some(empty), None)), absent);
    assert_eq!(
        chain(unsent()),
        [
            "Railway billing period query failed",
            "failed to call Railway GraphQL API",
            "refused"
        ]
    );
}

#[test]
fn the_charges_are_those_of_the_reply() {
    let envelope = UsageEnvelope {
        usage: Some(vec![
            row("CPU_USAGE", Some("other")),
            row("CPU_USAGE", Some("project")),
        ]),
    };
    let charges = railway()
        .project_charges(answer(Some(envelope), None))
        .unwrap();
    assert_eq!(charges.len(), 1);
    assert_eq!(charges[0].row, 1);

    let chain = |delivery| railway().project_charges(delivery).unwrap_err().chain;
    let absent = ["Railway GraphQL response did not include usage data"];
    assert_eq!(chain(answer(None, None)), absent);
    let empty = UsageEnvelope { usage: None };
    assert_eq!(chain(answer(Some(empty), None)), absent);
    assert_eq!(
        chain(unread())[..2],
        [
            "Railway usage query failed",
            "failed to read Railway GraphQL response with status 200 OK"
        ]
    );
}

#[test]
fn the_billing_is_in_the_configured_currency() {
    let project = RailwayProject {
        id: "id".to_string(),
        name: "Name".to_string(),
    };
    let cost = Amount::new(Sign::Positive, "1.00".to_string()).unwrap();
    let billing = railway().fetch_project_billing(project, &period(), cost);
    assert_eq!(billing.project_id, "id");
    assert_eq!(billing.project_name, "Name");
    assert_eq!(billing.amount.currency, "GBP");
    assert_eq!(billing.amount.value.text(), "1.00");
    assert_eq!(billing.billing_from.to_string(), "2026-08-08");
    assert_eq!(billing.billing_to.to_string(), "2026-09-07");
}

#[test]
fn access_tokens_are_asked_for_with_the_credentials() {
    let fields = |client: OidcClient| {
        let request = client.fetch_access_token();
        assert_eq!(request.method, Method::Post);
        assert_eq!(request.url, "https://oidc.example/token");
        assert!(request.headers.is_empty());
        match request.body {
            Body::Form(fields) => fields
                .iter()
                .map(|f| format!("{}={}", f.0, f.1))
                .collect::<Vec<String>>()
                .join("&"),
            _ => panic!("no form"),
        }
    };
    let credentials = "grant_type=client_credentials&client_id=client&client_secret=secret";
    assert_eq!(fields(oidc(None, None)), credentials);
    assert_eq!(
        fields(oidc(Some("s"), Some("a"))),
        format!("{credentials}&scope=s&audience=a")
    );
    assert_eq!(
        fields(oidc(None, Some("a"))),
        format!("{credentials}&audience=a")
    );
}

#[test]
fn access_tokens_come_with_success() {
    let token = |access_token: &str| {
        Ok(AccessTokenResponse {
            access_token: access_token.to_string(),
            token_type: Some("Bearer".to_string()),
            expires_in: Some(60),
        })
    };
    let read = |status: u16, value: Result<AccessTokenResponse, String>| {
        oidc(None, None).access_token(Delivery::Read(Decoded {
            reply: reply(status, "body"),
            value,
        }))
    };
    let found = read(200, token("t")).unwrap();
    assert_eq!(found.access_token, "t");
    assert_eq!(found.token_type.as_deref(), Some("Bearer"));
    assert_eq!(found.expires_in, Some(60));
    assert!(read(299, token("t")).is_ok());
    assert_eq!(
        read(401, token("t")).unwrap_err().chain,
        ["OIDC token endpoint failed with status 401 Words: body"]
    );
    assert!(read(199, token("t")).is_err());
    assert!(read(300, token("t")).is_err());
    assert_eq!(
        read(200, token("")).unwrap_err().chain,
        ["OIDC token response did not contain access_token"]
    );
    assert_eq!(
        read(200, Err("bad".to_string())).unwrap_err().chain,
        ["failed to decode OIDC token response", "bad"]
    );
    assert_eq!(
        oidc(None, None).access_token(unsent()).unwrap_err().chain,
        ["failed to call OIDC token endpoint", "refused"]
    );
    assert_eq!(
        oidc(None, None).access_token(unread()).unwrap_err().chain,
        ["failed to decode OIDC token response", "cut off"]
    );
    assert_eq!(
        oidc(None, None)
            .access_token(refused_unread())
            .unwrap_err()
            .chain,
        ["OIDC token endpoint failed with status 500 Internal Server Error: "]
    );
}

#[test]
fn invoices_are_submitted_with_their_key() {
    for base in ["https://s.example", "https://s.example/", "https://s.example//"] {
        let request = santinvoice(base).submit_invoice("token", "key", "<x/>");
        assert_eq!(request.method, Method::Post);
        assert_eq!(request.url, "https://s.example/submit/invoice");
        assert_eq!(header(&request, "authorization"), Some("Bearer token"));
        assert_eq!(header(&request, "X-Idempotency-Key"), Some("key"));
        assert_eq!(header(&request, "content-type"), Some("text/xml"));
        assert!(matches!(&request.body, Body::Text(s) if s == "<x/>"));
    }
}

#[test]
fn submissions_are_judged_by_the_status() {
    let client = santinvoice("https://s.example");
    let body = "<r><number>0</number><processedDetails>\n <number> INV-9 </number>\n</processedDetails></r>";
    let created = client
        .submission_result(Delivery::Read(reply(201, body)))
        .unwrap();
    assert_eq!(created.status, SubmissionStatus::Created);
    assert_eq!(created.status_label(), "created");
    assert_eq!(created.invoice_number.as_deref(), Some("INV-9"));
    assert_eq!(created.response_body, body);
    let duplicate = client
        .submission_result(Delivery::Read(reply(200, "")))
        .unwrap();
    assert_eq!(duplicate.status, SubmissionStatus::Duplicate);
    assert_eq!(duplicate.status_label(), "duplicate");
    assert_eq!(duplicate.invoice_number, None);

    let chain = |delivery| client.submission_result(delivery).unwrap_err().chain;
    let refused = |status: u16| chain(Delivery::Read(reply(status, "why")));
    assert_eq!(refused(400), ["SantInvoice rejected the XML syntax: why"]);
    assert_eq!(refused(401), ["SantInvoice authorization failed: why"]);
    assert_eq!(refused(403), ["SantInvoice authorization failed: why"]);
    assert_eq!(
        refused(422),
        ["SantInvoice rejected the invoice semantics: why"]
    );
    for status in [202, 204, 404, 500] {
        assert_eq!(
            refused(status),
            [format!(
                "SantInvoice returned unexpected status {status} Words: why"
            )]
        );
    }
    assert_eq!(
        chain(unsent()),
        ["failed to submit invoice to SantInvoice", "refused"]
    );
    assert_eq!(
        chain(unread()),
        ["failed to read SantInvoice response body", "cut off"]
    );
    assert_eq!(
        chain(refused_unread()),
        ["failed to read SantInvoice response body", "cut off"]
    );
}

#[test]
fn invoice_numbers_stand_in_the_details() {
    let find = |body: &str| find_invoice_number(body);
    assert_eq!(
        find("<processedDetails><number>7</number></processedDetails>").as_deref(),
        Some("7")
    );
    assert_eq!(find("<number>7</number>"), None);
    assert_eq!(
        find("<processedDetails></processedDetails><number>7</number>"),
        None
    );
}

#[test]
fn pdfs_are_downloaded_by_number() {
    let client = santinvoice("https://s.example/api/");
    let request = client.download_invoice_pdf("token", "INV 9");
    assert_eq!(request.method, Method::Get);
    assert_eq!(
        request.url,
        "https://s.example/api/pdf-statement/invoice/INV 9"
    );
    assert_eq!(header(&request, "authorization"), Some("Bearer token"));
    assert_eq!(request.headers.len(), 1);
    assert!(matches!(request.body, Body::Empty));

    let read = |status: u16| {
        client.invoice_pdf(Delivery::Read(PdfReply {
            reply: reply(status, "gone"),
            content: vec![1, 2, 3],
        }))
    };
    assert_eq!(read(200).unwrap(), [1, 2, 3]);
    assert_eq!(
        read(404).unwrap_err().chain,
        ["SantInvoice PDF request failed with status 404 Words: gone"]
    );
    assert_eq!(
        client.invoice_pdf(unsent()).unwrap_err().chain,
        ["failed to fetch SantInvoice PDF", "refused"]
    );
    assert_eq!(
        client.invoice_pdf(unread()).unwrap_err().chain,
        ["failed to read SantInvoice PDF body", "cut off"]
    );
    assert_eq!(
        client.invoice_pdf(refused_unread()).unwrap_err().chain,
        ["SantInvoice PDF request failed with status 500 Internal Server Error: "]
    );
}

#[test]
fn success_is_a_range_of_status_codes() {
    for status in 0..=1000_u16 {
        assert_eq!(is_success(status), (200..300).contains(&status));
    }
}

#[test]
fn clients_are_cloned_with_their_configuration() {
    assert_eq!(railway().clone().config.token, " token ");
    assert_eq!(oidc(Some("s"), None).clone().config.scope.as_deref(), Some("s"));
    assert_eq!(santinvoice("https://s.example").clone().config.base_url, "https://s.example");
}
