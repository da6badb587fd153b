//! The services: what is asked of them, and what their replies mean.

use vstd::prelude::*;

use crate::calendar;
use crate::calendar::BillingPeriod;
use crate::config;
use crate::config::OidcConfig;
use crate::config::RailwayConfig;
use crate::config::SantInvoiceConfig;
use crate::failure::Failure;
use crate::http;
use crate::http::Body;
use crate::http::BodyView;
use crate::http::Decoded;
use crate::http::Delivery;
use crate::http::HttpReply;
use crate::http::HttpRequest;
use crate::http::Method;
use crate::http::RequestView;
use crate::http::Variable;
use crate::http::VariableView;
use crate::models::AccessTokenResponse;
use crate::models::Amount;
use crate::models::Money;
use crate::models::ProjectBilling;
use crate::models::SubmissionResult;
use crate::models::SubmissionStatus;
use crate::readback;
use crate::text;
use crate::xml;

verus! {

pub const PROJECT_IDENTITY_QUERY: &'static str = r"
                    query ProjectIdentity($projectId: String!) {
                      project(id: $projectId) {
                        id
                        name
                      }
                    }
                ";

pub const BILLING_PERIOD_QUERY: &'static str = r"
                    query WorkspaceBillingPeriod($workspaceId: String!) {
                      workspace(workspaceId: $workspaceId) {
                        customer {
                          billingPeriod {
                            start
                          }
                        }
                      }
                    }
                ";

pub const USAGE_QUERY: &'static str = r"
                    query ProjectUsage(
                      $workspaceId: String!,
                      $startDate: DateTime!,
                      $endDate: DateTime!,
                      $measurements: [MetricMeasurement!]!
                    ) {
                      usage(
                        workspaceId: $workspaceId
                        startDate: $startDate
                        endDate: $endDate
                        includeDeleted: true
                        measurements: $measurements
                        groupBy: [PROJECT_ID]
                      ) {
                        measurement
                        value
                        tags {
                          projectId
                        }
                      }
                    }
                ";

/// The measurements that are billed.
pub open spec fn billable_measurements() -> Seq<Seq<char>> {
    seq![
        "MEMORY_USAGE_GB"@,
        "CPU_USAGE"@,
        "NETWORK_TX_GB"@,
        "DISK_USAGE_GB"@,
        "BACKUP_USAGE_GB"@,
    ]
}

/// The measurements that are billed.
pub fn billable_usage_measurements() -> (r: Vec<String>)
    ensures
        r.deep_view() == billable_measurements(),
{
    let mut r: Vec<String> = Vec::new();
    r.push("MEMORY_USAGE_GB".to_owned());
    r.push("CPU_USAGE".to_owned());
    r.push("NETWORK_TX_GB".to_owned());
    r.push("DISK_USAGE_GB".to_owned());
    r.push("BACKUP_USAGE_GB".to_owned());
    proof {
        assert(r.deep_view() == billable_measurements());
    }
    r
}

/// The price of one unit of usage: that many hundredths of the currency's unit, divided by that
/// many minutes.
#[derive(Clone, Copy, Debug, PartialEq, Eq, Structural)]
pub struct Price {
    pub hundredths: u32,
    pub minutes: u32,
}

/// The minutes of a month of 30 days.
pub const MINUTES_IN_MONTH: u32 = 43_200;

/// The price of a measurement: memory at 10 and processors at 20 for each month, outgoing traffic
/// at 0.05 whatever the time, disks and backups at 0.15 for each month. No other is billed.
pub open spec fn price_of(measurement: Seq<char>) -> Option<Price> {
    if measurement == "MEMORY_USAGE_GB"@ {
        Some(Price { hundredths: 1000, minutes: MINUTES_IN_MONTH })
    } else if measurement == "CPU_USAGE"@ {
        Some(Price { hundredths: 2000, minutes: MINUTES_IN_MONTH })
    } else if measurement == "NETWORK_TX_GB"@ {
        Some(Price { hundredths: 5, minutes: 1 })
    } else if measurement == "DISK_USAGE_GB"@ || measurement == "BACKUP_USAGE_GB"@ {
        Some(Price { hundredths: 15, minutes: MINUTES_IN_MONTH })
    } else {
        None
    }
}

/// The price of a measurement, where it is billed.
pub fn usage_price(measurement: &str) -> (r: Option<Price>)
    ensures
        r == price_of(measurement@),
{
    if text::same_text(measurement, "MEMORY_USAGE_GB") {
        Some(Price { hundredths: 1000, minutes: MINUTES_IN_MONTH })
    } else if text::same_text(measurement, "CPU_USAGE") {
        Some(Price { hundredths: 2000, minutes: MINUTES_IN_MONTH })
    } else if text::same_text(measurement, "NETWORK_TX_GB") {
        Some(Price { hundredths: 5, minutes: 1 })
    } else if text::same_text(measurement, "DISK_USAGE_GB") || text::same_text(
        measurement,
        "BACKUP_USAGE_GB",
    ) {
        Some(Price { hundredths: 15, minutes: MINUTES_IN_MONTH })
    } else {
        None
    }
}

/// A row of usage: how much of a measurement, by which project. The amount itself is found by the
/// position of the row.
#[derive(Debug)]
pub struct RailwayUsageRow {
    pub measurement: String,
    pub tags: RailwayUsageTags,
}

#[derive(Debug)]
pub struct RailwayUsageTags {
    pub project_id: Option<String>,
}

/// The usage of the row at that position, charged at a price.
#[derive(Clone, Copy, Debug, PartialEq, Eq, Structural)]
pub struct Charge {
    pub row: usize,
    pub price: Price,
}

/// The row is usage by that project.
pub open spec fn is_usage_by(row: RailwayUsageRow, project_id: Seq<char>) -> bool {
    config::option_view(row.tags.project_id) == Some(project_id)
}

/// The charges for the usage by a project among the rows, in their order: one for each row of that
/// project with a measurement that is billed.
pub open spec fn charges(rows: Seq<RailwayUsageRow>, project_id: Seq<char>) -> Seq<Charge>
    decreases rows.len(),
{
    if rows.len() == 0 {
        Seq::empty()
    } else {
        let before = charges(rows.drop_last(), project_id);
        let price = price_of(rows.last().measurement@);
        if is_usage_by(rows.last(), project_id) && price is Some {
            before.push(Charge { row: (rows.len() - 1) as usize, price: price->0 })
        } else {
            before
        }
    }
}

/// The charges for the usage by a project among the rows.
pub fn charges_for_usage(rows: &Vec<RailwayUsageRow>, project_id: &str) -> (r: Vec<Charge>)
    ensures
        r@ == charges(rows@, project_id@),
{
    let mut r: Vec<Charge> = Vec::new();
    let mut i: usize = 0;
    while i < rows.len()
        invariant
            0 <= i <= rows@.len(),
            r@ == charges(rows@.take(i as int), project_id@),
        decreases rows@.len() - i,
    {
        let by_project = match &rows[i].tags.project_id {
            Some(id) => text::same_text(id.as_str(), project_id),
            None => false,
        };
        proof {
            assert(rows@.take(i + 1).drop_last() == rows@.take(i as int));
        }
        if by_project {
            if let Some(price) = usage_price(rows[i].measurement.as_str()) {
                r.push(Charge { row: i, price });
            }
        }
        i = i + 1;
    }
    proof {
        assert(rows@.take(i as int) == rows@);
    }
    r
}

/// The token begins with the word Bearer, in whatever case.
pub open spec fn has_bearer_prefix(token: Seq<char>) -> bool {
    "bearer "@.is_prefix_of(text::ascii_lowered(text::trimmed(token)))
}

/// The value of the header that authorizes the bearer of a token.
pub open spec fn bearer(token: Seq<char>) -> Seq<char> {
    "Bearer "@ + token
}

/// The value of the header that authorizes the bearer of the Railway token.
pub fn build_railway_workspace_token_header(token: &str) -> (r: Result<String, Failure>)
    ensures
        match r {
            Ok(value) => !has_bearer_prefix(token@) && value@ == bearer(text::trimmed(token@)),
            Err(failure) => has_bearer_prefix(token@) && failure@ == seq![
                "RAILWAY_TOKEN must not include a Bearer prefix for a Railway project token"@,
            ],
        },
{
    let token = text::trim(token);
    if text::starts_with(text::to_ascii_lowercase(token).as_str(), "bearer ") {
        return Err(
            Failure::new(
                "RAILWAY_TOKEN must not include a Bearer prefix for a Railway project token"
                    .to_owned(),
            ),
        );
    }
    Ok("Bearer ".to_owned().concat(token))
}

/// An error that a GraphQL reply reports.
#[derive(Debug)]
pub struct GraphQlError {
    pub message: String,
    pub extensions: GraphQlErrorExtensions,
}

#[derive(Debug)]
pub struct GraphQlErrorExtensions {
    pub code: Option<String>,
    pub trace_id: Option<String>,
}

/// A reply to a GraphQL query.
#[derive(Debug)]
pub struct GraphQlResponse<T> {
    pub data: Option<T>,
    pub errors: Option<Vec<GraphQlError>>,
}

#[derive(Debug)]
pub struct ProjectOnlyEnvelope {
    pub project: Option<RailwayProject>,
}

#[derive(Debug)]
pub struct RailwayProject {
    pub id: String,
    pub name: String,
}

#[derive(Debug)]
pub struct WorkspaceEnvelope {
    pub workspace: Option<RailwayWorkspace>,
}

#[derive(Debug)]
pub struct RailwayWorkspace {
    pub customer: RailwayCustomer,
}

#[derive(Debug)]
pub struct RailwayCustomer {
    pub billing_period: RailwayBillingPeriod,
}

#[derive(Debug)]
pub struct RailwayBillingPeriod {
    pub start: String,
}

#[derive(Debug)]
pub struct UsageEnvelope {
    pub usage: Option<Vec<RailwayUsageRow>>,
}

/// An error on one line: its message, and in brackets the code and the trace that it has.
pub open spec fn error_line(error: GraphQlError) -> Seq<char> {
    match (error.extensions.code, error.extensions.trace_id) {
        (Some(code), Some(trace_id)) => error.message@ + " (code: "@ + code@ + ", traceId: "@
            + trace_id@ + ")"@,
        (Some(code), None) => error.message@ + " (code: "@ + code@ + ")"@,
        (None, Some(trace_id)) => error.message@ + " (traceId: "@ + trace_id@ + ")"@,
        (None, None) => error.message@,
    }
}

/// The lines of a list of errors.
pub open spec fn error_lines(errors: Seq<GraphQlError>) -> Seq<Seq<char>> {
    errors.map_values(|e: GraphQlError| error_line(e))
}

fn describe_error(error: &GraphQlError) -> (r: String)
    ensures
        r@ == error_line(*error),
{
    let message = error.message.clone();
    match (&error.extensions.code, &error.extensions.trace_id) {
        (Some(code), Some(trace_id)) => message.concat(" (code: ").concat(code.as_str()).concat(
            ", traceId: ",
        ).concat(trace_id.as_str()).concat(")"),
        (Some(code), None) => message.concat(" (code: ").concat(code.as_str()).concat(")"),
        (None, Some(trace_id)) => message.concat(" (traceId: ").concat(trace_id.as_str()).concat(
            ")",
        ),
        (None, None) => message,
    }
}

/// The report of the errors of a reply.
pub open spec fn errors_report(errors: Seq<GraphQlError>) -> Seq<Seq<char>> {
    seq!["Railway GraphQL returned errors: "@ + text::joined(error_lines(errors), "; "@)]
}

/// The data of a reply, unless it reports errors.
pub fn checked_data<T>(response: GraphQlResponse<T>) -> (r: Result<Option<T>, Failure>)
    ensures
        match (r, response.errors) {
            (Ok(data), None) => data == response.data,
            (Err(failure), Some(errors)) => failure@ == errors_report(errors@),
            _ => false,
        },
{
    match response.errors {
        None => Ok(response.data),
        Some(errors) => {
            let mut lines: Vec<String> = Vec::new();
            let mut i: usize = 0;
            while i < errors.len()
                invariant
                    0 <= i <= errors@.len(),
                    lines.deep_view() == error_lines(errors@.take(i as int)),
                decreases errors@.len() - i,
            {
                let ghost before = lines.deep_view();
                lines.push(describe_error(&errors[i]));
                proof {
                    let line = error_line(errors@[i as int]);
                    assert(lines.deep_view() == before.push(line));
                    assert(error_lines(errors@.take(i + 1)) == error_lines(
                        errors@.take(i as int),
                    ).push(line));
                }
                i = i + 1;
            }
            proof {
                assert(errors@.take(i as int) == errors@);
            }
            let summary = text::join(&lines, "; ");
            Err(
                Failure::new(
                    "Railway GraphQL returned errors: ".to_owned().concat(summary.as_str()),
                ),
            )
        },
    }
}

/// What keeps the Railway token from being sent: that it begins with the word Bearer, or that no
/// header can hold it.
pub open spec fn token_problem(token: Seq<char>) -> config::Problem {
    if has_bearer_prefix(token) {
        Some(
            seq!["RAILWAY_TOKEN must not include a Bearer prefix for a Railway project token"@],
        )
    } else if !http::is_header_text(bearer(text::trimmed(token))) {
        Some(seq!["invalid Railway auth header value"@, "failed to parse header value"@])
    } else {
        None
    }
}

/// A GraphQL query to Railway.
pub open spec fn graphql_request(
    config: RailwayConfig,
    query: Seq<char>,
    variables: Seq<(Seq<char>, VariableView)>,
) -> RequestView {
    RequestView {
        method: Method::Post,
        url: config.graphql_url@,
        headers: seq![
            ("authorization"@, bearer(text::trimmed(config.token@))),
            ("content-type"@, "application/json"@),
        ],
        body: BodyView::Graphql { query, variables },
    }
}

/// The outcome of asking for a request: the request, or what keeps it from being sent.
pub open spec fn is_request_outcome(
    r: Result<HttpRequest, Failure>,
    problem: config::Problem,
    request: RequestView,
) -> bool {
    match r {
        Ok(made) => problem is None && made@ == request,
        Err(failure) => problem == Some(failure@),
    }
}

/// A problem seen from the attempt that it made fail.
pub open spec fn problem_within(problem: config::Problem, context: Seq<char>) -> config::Problem {
    match problem {
        Some(report) => Some(seq![context] + report),
        None => None,
    }
}

/// The Railway API.
#[derive(Debug)]
pub struct RailwayClient {
    pub config: RailwayConfig,
}

impl Clone for RailwayClient {
    fn clone(&self) -> (r: Self)
        ensures
            r == *self,
    {
        RailwayClient { config: self.config.clone() }
    }
}

impl RailwayClient {
    pub fn new(config: RailwayConfig) -> (r: RailwayClient)
        ensures
            r.config == config,
    {
        RailwayClient { config }
    }

    fn post_graphql(&self, query: &str, variables: Vec<(String, Variable)>) -> (r: Result<
        HttpRequest,
        Failure,
    >)
        ensures
            is_request_outcome(
                r,
                token_problem(self.config.token@),
                graphql_request(self.config, query@, http::variables_view(variables@)),
            ),
    {
        let authorization = build_railway_workspace_token_header(self.config.token.as_str())?;
        match http::check_header_value(authorization.as_str()) {
            Ok(()) => {},
            Err(cause) => {
                return Err(
                    Failure::caused("invalid Railway auth header value".to_owned(), cause),
                );
            },
        }
        let mut headers: Vec<(String, String)> = Vec::new();
        http::add_pair(&mut headers, "authorization", authorization);
        http::add_pair(&mut headers, "content-type", "application/json".to_owned());
        let request = HttpRequest {
            method: Method::Post,
            url: self.config.graphql_url.clone(),
            headers,
            body: Body::Graphql { query: query.to_owned(), variables },
        };
        proof {
            assert(request@.headers == graphql_request(
                self.config,
                query@,
                http::variables_view(variables@),
            ).headers);
        }
        Ok(request)
    }

    /// The variables of the query for the project.
    pub open spec fn project_variables(&self) -> Seq<(Seq<char>, VariableView)> {
        seq![("projectId"@, VariableView::Text(self.config.project_id@))]
    }

    /// The query that fetches the identity of the project.
    pub fn fetch_project_identity(&self) -> (r: Result<HttpRequest, Failure>)
        ensures
            is_request_outcome(
                r,
                token_problem(self.config.token@),
                graphql_request(
                    self.config,
                    PROJECT_IDENTITY_QUERY@,
                    self.project_variables(),
                ),
            ),
    {
        let mut variables: Vec<(String, Variable)> = Vec::new();
        http::add_variable(
            &mut variables,
            "projectId",
            Variable::Text(self.config.project_id.clone()),
        );
        proof {
            assert(http::variables_view(variables@) == self.project_variables());
        }
        self.post_graphql(PROJECT_IDENTITY_QUERY, variables)
    }

    /// The variables of the query for the billing period.
    pub open spec fn period_variables(&self) -> Seq<(Seq<char>, VariableView)> {
        seq![("workspaceId"@, VariableView::Text(self.config.workspace_id@))]
    }

    /// The query that fetches the start of the current billing period, by which the previous one is
    /// known.
    pub fn fetch_previous_billing_period(&self) -> (r: Result<HttpRequest, Failure>)
        ensures
            is_request_outcome(
                r,
                problem_within(
                    token_problem(self.config.token@),
                    "Railway billing period query failed"@,
                ),
                graphql_request(self.config, BILLING_PERIOD_QUERY@, self.period_variables()),
            ),
    {
        let mut variables: Vec<(String, Variable)> = Vec::new();
        http::add_variable(
            &mut variables,
            "workspaceId",
            Variable::Text(self.config.workspace_id.clone()),
        );
        proof {
            assert(http::variables_view(variables@) == self.period_variables());
        }
        match self.post_graphql(BILLING_PERIOD_QUERY, variables) {
            Ok(request) => Ok(request),
            Err(failure) => Err(failure.within("Railway billing period query failed")),
        }
    }

    /// The variables of the query for the usage in a period.
    pub open spec fn usage_variables(&self, period: BillingPeriod) -> Seq<
        (Seq<char>, VariableView),
    > {
        seq![
            ("workspaceId"@, VariableView::Text(self.config.workspace_id@)),
            ("startDate"@, VariableView::Text(period.start@)),
            ("endDate"@, VariableView::Text(period.end@)),
            ("measurements"@, VariableView::List(billable_measurements())),
        ]
    }

    /// The query that fetches the usage in a period, by which the cost of the project is known.
    pub fn fetch_project_cost(&self, period: &BillingPeriod) -> (r: Result<HttpRequest, Failure>)
        ensures
            is_request_outcome(
                r,
                problem_within(
                    token_problem(self.config.token@),
                    "Railway usage query failed"@,
                ),
                graphql_request(self.config, USAGE_QUERY@, self.usage_variables(*period)),
            ),
    {
        let mut variables: Vec<(String, Variable)> = Vec::new();
        http::add_variable(
            &mut variables,
            "workspaceId",
            Variable::Text(self.config.workspace_id.clone()),
        );
        http::add_variable(&mut variables, "startDate", Variable::Text(period.start.clone()));
        http::add_variable(&mut variables, "endDate", Variable::Text(period.end.clone()));
        http::add_variable(
            &mut variables,
            "measurements",
            Variable::List(billable_usage_measurements()),
        );
        proof {
            assert(http::variables_view(variables@) == self.usage_variables(*period));
        }
        match self.post_graphql(USAGE_QUERY, variables) {
            Ok(request) => Ok(request),
            Err(failure) => Err(failure.within("Railway usage query failed")),
        }
    }
}

/// A reply to a GraphQL query, as it came.
pub type GraphQlDelivery<T> = Delivery<Decoded<GraphQlResponse<T>>>;

/// What is wrong with the reply to a GraphQL query.
pub open spec fn graphql_problem<T>(delivery: GraphQlDelivery<T>) -> config::Problem {
    match delivery {
        Delivery::Unsent { cause } => Some(seq!["failed to call Railway GraphQL API"@, cause@]),
        Delivery::Unread { status: _, status_text, cause } => Some(
            seq!["failed to read Railway GraphQL response with status "@ + status_text@, cause@],
        ),
        Delivery::Read(decoded) => match decoded.value {
            Err(cause) => Some(
                seq![
                    "failed to decode Railway GraphQL response with status "@
                        + decoded.reply.status_text@ + ": "@ + decoded.reply.body@,
                    cause@,
                ],
            ),
            Ok(response) => match response.errors {
                Some(errors) => Some(errors_report(errors@)),
                None => None,
            },
        },
    }
}

/// The data in the reply to a GraphQL query that has nothing wrong.
pub open spec fn graphql_data<T>(delivery: GraphQlDelivery<T>) -> Option<T> {
    delivery->Read_0.value->Ok_0.data
}

/// The data in the reply to a GraphQL query.
pub fn read_graphql<T>(delivery: GraphQlDelivery<T>) -> (r: Result<Option<T>, Failure>)
    ensures
        match r {
            Ok(data) => graphql_problem(delivery) is None && data == graphql_data(delivery),
            Err(failure) => graphql_problem(delivery) == Some(failure@),
        },
{
    match delivery {
        Delivery::Unsent { cause } => Err(
            Failure::caused("failed to call Railway GraphQL API".to_owned(), cause),
        ),
        Delivery::Unread { status: _, status_text, cause } => Err(
            Failure::caused(
                "failed to read Railway GraphQL response with status ".to_owned().concat(
                    status_text.as_str(),
                ),
                cause,
            ),
        ),
        Delivery::Read(decoded) => match decoded.value {
            Err(cause) => Err(
                Failure::caused(
                    "failed to decode Railway GraphQL response with status ".to_owned().concat(
                        decoded.reply.status_text.as_str(),
                    ).concat(": ").concat(decoded.reply.body.as_str()),
                    cause,
                ),
            ),
            Ok(response) => checked_data(response),
        },
    }
}

/// The project that a reply identifies.
pub open spec fn project_of(data: Option<ProjectOnlyEnvelope>) -> Option<RailwayProject> {
    match data {
        Some(envelope) => envelope.project,
        None => None,
    }
}

/// The start of the current billing period that a reply gives.
pub open spec fn period_start_of(data: Option<WorkspaceEnvelope>) -> Option<Seq<char>> {
    match data {
        Some(envelope) => match envelope.workspace {
            Some(workspace) => Some(workspace.customer.billing_period.start@),
            None => None,
        },
        None => None,
    }
}

/// The rows of usage that a reply gives.
pub open spec fn usage_of(data: Option<UsageEnvelope>) -> Option<Vec<RailwayUsageRow>> {
    match data {
        Some(envelope) => envelope.usage,
        None => None,
    }
}

/// The report of a reply without what was asked for.
pub open spec fn not_included(what: Seq<char>) -> Seq<Seq<char>> {
    seq!["Railway GraphQL response did not include "@ + what + " data"@]
}

fn absent(what: &str) -> (r: Failure)
    ensures
        r@ == not_included(what@),
{
    Failure::new(
        "Railway GraphQL response did not include ".to_owned().concat(what).concat(" data"),
    )
}

/// What keeps a reply from identifying the project.
pub open spec fn project_problem(
    delivery: GraphQlDelivery<ProjectOnlyEnvelope>,
) -> config::Problem {
    config::earlier(
        graphql_problem(delivery),
        if project_of(graphql_data(delivery)) is None {
            Some(not_included("project"@))
        } else {
            None
        },
    )
}

/// What keeps a reply from giving the previous billing period.
pub open spec fn period_problem(
    delivery: GraphQlDelivery<WorkspaceEnvelope>,
) -> config::Problem {
    config::earlier(
        problem_within(graphql_problem(delivery), "Railway billing period query failed"@),
        match period_start_of(graphql_data(delivery)) {
            None => Some(not_included("workspace billing"@)),
            Some(start) => match calendar::rfc3339_reading(start) {
                Err(cause) => Some(calendar::invalid_start(cause)),
                Ok(_) => None,
            },
        },
    )
}

/// The current billing period's start that a reply gives, as an instant.
pub open spec fn period_boundary(delivery: GraphQlDelivery<WorkspaceEnvelope>) -> calendar::Moment {
    calendar::moment_of(
        calendar::rfc3339_reading(period_start_of(graphql_data(delivery))->0)->Ok_0,
    )
}

/// The reply gives that instant as the start of the current billing period, as `to_rfc3339`
/// writes it.
pub open spec fn starts_at(
    delivery: GraphQlDelivery<WorkspaceEnvelope>,
    boundary: calendar::Moment,
) -> bool {
    &&& graphql_problem(delivery) is None
    &&& period_start_of(graphql_data(delivery)) matches Some(start)
    &&& calendar::writes_moment(start, boundary)
}

/// A start that is written as `to_rfc3339` writes it reads as that instant.
pub open spec fn start_is_read_back(delivery: GraphQlDelivery<WorkspaceEnvelope>) -> bool {
    forall|boundary: calendar::Moment| #[trigger]
        starts_at(delivery, boundary) ==> period_problem(delivery) is None && period_boundary(
            delivery,
        ) == boundary
}

/// What keeps a reply from giving the usage.
pub open spec fn usage_problem(delivery: GraphQlDelivery<UsageEnvelope>) -> config::Problem {
    config::earlier(
        problem_within(graphql_problem(delivery), "Railway usage query failed"@),
        if usage_of(graphql_data(delivery)) is None {
            Some(not_included("usage"@))
        } else {
            None
        },
    )
}

impl RailwayClient {
    /// The project that the reply to the query for it identifies.
    pub fn project_identity(&self, delivery: GraphQlDelivery<ProjectOnlyEnvelope>) -> (r: Result<
        RailwayProject,
        Failure,
    >)
        ensures
            match r {
                Ok(project) => project_problem(delivery) is None && project_of(
                    graphql_data(delivery),
                ) == Some(project),
                Err(failure) => project_problem(delivery) == Some(failure@),
            },
    {
        let data = read_graphql(delivery)?;
        let project = match data {
            Some(envelope) => envelope.project,
            None => None,
        };
        match project {
            Some(project) => Ok(project),
            None => Err(absent("project")),
        }
    }

    /// The completed period before the one whose start the reply to the query for it gives.
    pub fn previous_billing_period(&self, delivery: GraphQlDelivery<WorkspaceEnvelope>) -> (r:
        Result<BillingPeriod, Failure>)
        ensures
            match r {
                Ok(period) => period_problem(delivery) is None && calendar::is_period_before(
                    period,
                    period_boundary(delivery),
                ),
                Err(failure) => period_problem(delivery) == Some(failure@),
            },
            start_is_read_back(delivery),
            forall|boundary: calendar::Moment| #[trigger]
                starts_at(delivery, boundary) ==> r is Ok && calendar::is_period_before(
                    r->Ok_0,
                    boundary,
                ),
    {
        let data = match read_graphql(delivery) {
            Ok(data) => data,
            Err(failure) => {
                return Err(failure.within("Railway billing period query failed"));
            },
        };
        let workspace = match data {
            Some(envelope) => envelope.workspace,
            None => None,
        };
        match workspace {
            Some(workspace) => calendar::previous_billing_period(
                workspace.customer.billing_period.start.as_str(),
            ),
            None => Err(absent("workspace billing")),
        }
    }

    /// The charges for the usage by the project that the reply to the query for it gives.
    pub fn project_charges(&self, delivery: GraphQlDelivery<UsageEnvelope>) -> (r: Result<
        Vec<Charge>,
        Failure,
    >)
        ensures
            match r {
                Ok(list) => usage_problem(delivery) is None && list@ == charges(
                    usage_of(graphql_data(delivery))->0@,
                    self.config.project_id@,
                ),
                Err(failure) => usage_problem(delivery) == Some(failure@),
            },
    {
        let data = match read_graphql(delivery) {
            Ok(data) => data,
            Err(failure) => {
                return Err(failure.within("Railway usage query failed"));
            },
        };
        let usage = match data {
            Some(envelope) => envelope.usage,
            None => None,
        };
        match usage {
            Some(rows) => Ok(charges_for_usage(&rows, self.config.project_id.as_str())),
            None => Err(absent("usage")),
        }
    }

    /// The billing of a project for a period, once all that it is made of has been fetched: in the
    /// configured currency.
    pub fn fetch_project_billing(
        &self,
        project: RailwayProject,
        period: &BillingPeriod,
        total_cost: Amount,
    ) -> (r: ProjectBilling)
        ensures
            r.project_id == project.id,
            r.project_name == project.name,
            r.amount.currency == self.config.currency,
            r.amount.value == total_cost,
            r.billing_from@ == period.from@,
            r.billing_to@ == period.to@,
    {
        ProjectBilling {
            project_id: project.id,
            project_name: project.name,
            amount: Money { currency: self.config.currency.clone(), value: total_cost },
            billing_from: period.from,
            billing_to: period.to,
        }
    }
}

/// The OIDC provider.
#[derive(Debug)]
pub struct OidcClient {
    pub config: OidcConfig,
}

impl Clone for OidcClient {
    fn clone(&self) -> (r: Self)
        ensures
            r == *self,
    {
        OidcClient { config: self.config.clone() }
    }
}

/// The fields of the form that asks for an access token.
pub open spec fn token_fields(config: OidcConfig) -> Seq<(Seq<char>, Seq<char>)> {
    let credentials = seq![
        ("grant_type"@, "client_credentials"@),
        ("client_id"@, config.client_id@),
        ("client_secret"@, config.client_secret@),
    ];
    let scoped = match config.scope {
        Some(scope) => credentials.push(("scope"@, scope@)),
        None => credentials,
    };
    match config.audience {
        Some(audience) => scoped.push(("audience"@, audience@)),
        None => scoped,
    }
}

/// The request for an access token.
pub open spec fn token_request(config: OidcConfig) -> RequestView {
    RequestView {
        method: Method::Post,
        url: config.token_url@,
        headers: Seq::empty(),
        body: BodyView::Form(token_fields(config)),
    }
}

/// The report of a reply that refuses an access token, by its status and its text.
pub open spec fn token_refusal(status_text: Seq<char>, body: Seq<char>) -> Seq<Seq<char>> {
    seq!["OIDC token endpoint failed with status "@ + status_text + ": "@ + body]
}

fn refuse_token(status_text: &str, body: &str) -> (r: Failure)
    ensures
        r@ == token_refusal(status_text@, body@),
{
    Failure::new(
        "OIDC token endpoint failed with status ".to_owned().concat(status_text).concat(
            ": ",
        ).concat(body),
    )
}

/// What keeps a reply from giving an access token. Of a status that is not one of success, a text
/// that could not be read counts as empty.
pub open spec fn access_token_problem(
    delivery: Delivery<Decoded<AccessTokenResponse>>,
) -> config::Problem {
    match delivery {
        Delivery::Unsent { cause } => Some(seq!["failed to call OIDC token endpoint"@, cause@]),
        Delivery::Unread { status, status_text, cause } => if !http::is_success_code(status) {
            Some(token_refusal(status_text@, Seq::empty()))
        } else {
            Some(seq!["failed to decode OIDC token response"@, cause@])
        },
        Delivery::Read(decoded) => if !http::is_success_code(decoded.reply.status) {
            Some(token_refusal(decoded.reply.status_text@, decoded.reply.body@))
        } else {
            match decoded.value {
                Err(cause) => Some(seq!["failed to decode OIDC token response"@, cause@]),
                Ok(token) => if token.access_token@.len() == 0 {
                    Some(seq!["OIDC token response did not contain access_token"@])
                } else {
                    None
                },
            }
        },
    }
}

impl OidcClient {
    pub fn new(config: OidcConfig) -> (r: OidcClient)
        ensures
            r.config == config,
    {
        OidcClient { config }
    }

    /// The request that fetches an access token.
    pub fn fetch_access_token(&self) -> (r: HttpRequest)
        ensures
            r@ == token_request(self.config),
    {
        let mut fields: Vec<(String, String)> = Vec::new();
        http::add_pair(&mut fields, "grant_type", "client_credentials".to_owned());
        http::add_pair(&mut fields, "client_id", self.config.client_id.clone());
        http::add_pair(&mut fields, "client_secret", self.config.client_secret.clone());
        if let Some(scope) = &self.config.scope {
            http::add_pair(&mut fields, "scope", scope.clone());
        }
        if let Some(audience) = &self.config.audience {
            http::add_pair(&mut fields, "audience", audience.clone());
        }
        let request = HttpRequest {
            method: Method::Post,
            url: self.config.token_url.clone(),
            headers: Vec::new(),
            body: Body::Form(fields),
        };
        proof {
            assert(http::pairs_view(fields@) == token_fields(self.config));
            assert(request@.headers == token_request(self.config).headers);
        }
        request
    }

    /// The access token that the reply to the request for it gives.
    pub fn access_token(&self, delivery: Delivery<Decoded<AccessTokenResponse>>) -> (r: Result<
        AccessTokenResponse,
        Failure,
    >)
        ensures
            match r {
                Ok(token) => access_token_problem(delivery) is None
                    && delivery->Read_0.value->Ok_0 == token,
                Err(failure) => access_token_problem(delivery) == Some(failure@),
            },
    {
        let decoded = match delivery {
            Delivery::Unsent { cause } => {
                return Err(
                    Failure::caused("failed to call OIDC token endpoint".to_owned(), cause),
                );
            },
            Delivery::Unread { status, status_text, cause } => {
                if !http::is_success(status) {
                    proof {
                        reveal_strlit("");
                        assert(""@ == Seq::<char>::empty());
                    }
                    return Err(refuse_token(status_text.as_str(), ""));
                }
                return Err(
                    Failure::caused("failed to decode OIDC token response".to_owned(), cause),
                );
            },
            Delivery::Read(decoded) => decoded,
        };
        if !http::is_success(decoded.reply.status) {
            return Err(
                refuse_token(decoded.reply.status_text.as_str(), decoded.reply.body.as_str()),
            );
        }
        match decoded.value {
            Err(cause) => Err(
                Failure::caused("failed to decode OIDC token response".to_owned(), cause),
            ),
            Ok(token) => if token.access_token.as_str().is_empty() {
                Err(Failure::new("OIDC token response did not contain access_token".to_owned()))
            } else {
                Ok(token)
            },
        }
    }
}

/// The SantInvoice API.
#[derive(Debug)]
pub struct SantInvoiceClient {
    pub config: SantInvoiceConfig,
}

impl Clone for SantInvoiceClient {
    fn clone(&self) -> (r: Self)
        ensures
            r == *self,
    {
        SantInvoiceClient { config: self.config.clone() }
    }
}

/// The reply to the request for a PDF: for a status of success its bytes count, else its text.
#[derive(Debug)]
pub struct PdfReply {
    pub reply: HttpReply,
    pub content: Vec<u8>,
}

/// The address of a service of SantInvoice.
pub open spec fn service_url(config: SantInvoiceConfig, path: Seq<char>) -> Seq<char> {
    text::without_trailing(config.base_url@, '/') + path
}

/// The request that submits an invoice.
pub open spec fn submission_request(
    config: SantInvoiceConfig,
    access_token: Seq<char>,
    idempotency_key: Seq<char>,
    payload: Seq<char>,
) -> RequestView {
    RequestView {
        method: Method::Post,
        url: service_url(config, "/submit/invoice"@),
        headers: seq![
            ("authorization"@, bearer(access_token)),
            ("X-Idempotency-Key"@, idempotency_key),
            ("content-type"@, "text/xml"@),
        ],
        body: BodyView::Text(payload),
    }
}

/// The request for the PDF of an invoice.
pub open spec fn pdf_request(
    config: SantInvoiceConfig,
    access_token: Seq<char>,
    invoice_number: Seq<char>,
) -> RequestView {
    RequestView {
        method: Method::Get,
        url: service_url(config, "/pdf-statement/invoice/"@) + invoice_number,
        headers: seq![("authorization"@, bearer(access_token))],
        body: BodyView::Empty,
    }
}

/// The number of the invoice in the reply to a submission.
pub open spec fn invoice_number_in(body: Seq<char>) -> Option<Seq<char>> {
    match xml::xml_value(body, "processedDetails"@) {
        Some(details) => xml::xml_value(details, "number"@),
        None => None,
    }
}

/// What became of a submitted invoice, by the status code of the reply: 201 for a new invoice,
/// 200 for one that was there already.
pub open spec fn submission_status(status: u16) -> Option<SubmissionStatus> {
    if status == 200 {
        Some(SubmissionStatus::Duplicate)
    } else if status == 201 {
        Some(SubmissionStatus::Created)
    } else {
        None
    }
}

/// What a reply of any other status says is wrong.
pub open spec fn rejection(reply: HttpReply) -> Seq<char> {
    if reply.status == 400 {
        "SantInvoice rejected the XML syntax: "@ + reply.body@
    } else if reply.status == 401 || reply.status == 403 {
        "SantInvoice authorization failed: "@ + reply.body@
    } else if reply.status == 422 {
        "SantInvoice rejected the invoice semantics: "@ + reply.body@
    } else {
        "SantInvoice returned unexpected status "@ + reply.status_text@ + ": "@ + reply.body@
    }
}

/// What keeps an invoice from having been submitted.
pub open spec fn submission_problem(delivery: Delivery<HttpReply>) -> config::Problem {
    match delivery {
        Delivery::Unsent { cause } => Some(
            seq!["failed to submit invoice to SantInvoice"@, cause@],
        ),
        Delivery::Unread { status: _, status_text: _, cause } => Some(
            seq!["failed to read SantInvoice response body"@, cause@],
        ),
        Delivery::Read(reply) => if submission_status(reply.status) is None {
            Some(seq![rejection(reply)])
        } else {
            None
        },
    }
}

/// The result tells what became of an invoice whose submission got that reply.
pub open spec fn is_submission_result(result: SubmissionResult, reply: HttpReply) -> bool {
    &&& submission_status(reply.status) == Some(result.status)
    &&& config::option_view(result.invoice_number) == invoice_number_in(reply.body@)
    &&& result.response_body@ == reply.body@
}

/// The report of a reply that refuses a PDF, by its status and its text.
pub open spec fn pdf_refusal(status_text: Seq<char>, body: Seq<char>) -> Seq<Seq<char>> {
    seq!["SantInvoice PDF request failed with status "@ + status_text + ": "@ + body]
}

fn refuse_pdf(status_text: &str, body: &str) -> (r: Failure)
    ensures
        r@ == pdf_refusal(status_text@, body@),
{
    Failure::new(
        "SantInvoice PDF request failed with status ".to_owned().concat(status_text).concat(
            ": ",
        ).concat(body),
    )
}

/// What keeps the PDF of an invoice from having been downloaded. Of a status that is not one of
/// success, a text that could not be read counts as empty.
pub open spec fn pdf_problem(delivery: Delivery<PdfReply>) -> config::Problem {
    match delivery {
        Delivery::Unsent { cause } => Some(seq!["failed to fetch SantInvoice PDF"@, cause@]),
        Delivery::Unread { status, status_text, cause } => if !http::is_success_code(status) {
            Some(pdf_refusal(status_text@, Seq::empty()))
        } else {
            Some(seq!["failed to read SantInvoice PDF body"@, cause@])
        },
        Delivery::Read(pdf) => if !http::is_success_code(pdf.reply.status) {
            Some(pdf_refusal(pdf.reply.status_text@, pdf.reply.body@))
        } else {
            None
        },
    }
}

/// The number of the invoice in the reply to a submission.
pub fn find_invoice_number(body: &str) -> (r: Option<String>)
    ensures
        config::option_view(r) == invoice_number_in(body@),
{
    match xml::find_xml_value(body, "processedDetails") {
        Some(details) => xml::find_xml_value(details.as_str(), "number"),
        None => None,
    }
}

impl SantInvoiceClient {
    pub fn new(config: SantInvoiceConfig) -> (r: SantInvoiceClient)
        ensures
            r.config == config,
    {
        SantInvoiceClient { config }
    }

    /// The request that submits an invoice.
    pub fn submit_invoice(
        &self,
        access_token: &str,
        idempotency_key: &str,
        payload: &str,
    ) -> (r: HttpRequest)
        ensures
            r@ == submission_request(self.config, access_token@, idempotency_key@, payload@),
    {
        let base = text::trim_end_matches(self.config.base_url.as_str(), '/');
        let mut headers: Vec<(String, String)> = Vec::new();
        http::add_pair(&mut headers, "authorization", "Bearer ".to_owned().concat(access_token));
        http::add_pair(&mut headers, "X-Idempotency-Key", idempotency_key.to_owned());
        http::add_pair(&mut headers, "content-type", "text/xml".to_owned());
        let request = HttpRequest {
            method: Method::Post,
            url: base.to_owned().concat("/submit/invoice"),
            headers,
            body: Body::Text(payload.to_owned()),
        };
        proof {
            assert(request@.headers == submission_request(
                self.config,
                access_token@,
                idempotency_key@,
                payload@,
            ).headers);
        }
        request
    }

    /// What became of a submitted invoice, by the reply to its submission.
    pub fn submission_result(&self, delivery: Delivery<HttpReply>) -> (r: Result<
        SubmissionResult,
        Failure,
    >)
        ensures
            match r {
                Ok(result) => submission_problem(delivery) is None && is_submission_result(
                    result,
                    delivery->Read_0,
                ),
                Err(failure) => submission_problem(delivery) == Some(failure@),
            },
    {
        let reply = match delivery {
            Delivery::Unsent { cause } => {
                return Err(
                    Failure::caused("failed to submit invoice to SantInvoice".to_owned(), cause),
                );
            },
            Delivery::Unread { status: _, status_text: _, cause } => {
                return Err(
                    Failure::caused("failed to read SantInvoice response body".to_owned(), cause),
                );
            },
            Delivery::Read(reply) => reply,
        };
        let body = reply.body;
        match reply.status {
            200 => {
                let invoice_number = find_invoice_number(body.as_str());
                Ok(
                    SubmissionResult {
                        status: SubmissionStatus::Duplicate,
                        invoice_number,
                        response_body: body,
                    },
                )
            },
            201 => {
                let invoice_number = find_invoice_number(body.as_str());
                Ok(
                    SubmissionResult {
                        status: SubmissionStatus::Created,
                        invoice_number,
                        response_body: body,
                    },
                )
            },
            400 => Err(
                Failure::new(
                    "SantInvoice rejected the XML syntax: ".to_owned().concat(body.as_str()),
                ),
            ),
            401 | 403 => Err(
                Failure::new("SantInvoice authorization failed: ".to_owned().concat(body.as_str())),
            ),
            422 => Err(
                Failure::new(
                    "SantInvoice rejected the invoice semantics: ".to_owned().concat(
                        body.as_str(),
                    ),
                ),
            ),
            _ => Err(
                Failure::new(
                    "SantInvoice returned unexpected status ".to_owned().concat(
                        reply.status_text.as_str(),
                    ).concat(": ").concat(body.as_str()),
                ),
            ),
        }
    }

    /// The request that downloads the PDF of an invoice.
    pub fn download_invoice_pdf(&self, access_token: &str, invoice_number: &str) -> (r: HttpRequest)
        ensures
            r@ == pdf_request(self.config, access_token@, invoice_number@),
    {
        let base = text::trim_end_matches(self.config.base_url.as_str(), '/');
        let mut headers: Vec<(String, String)> = Vec::new();
        http::add_pair(&mut headers, "authorization", "Bearer ".to_owned().concat(access_token));
        let request = HttpRequest {
            method: Method::Get,
            url: base.to_owned().concat("/pdf-statement/invoice/").concat(invoice_number),
            headers,
            body: Body::Empty,
        };
        proof {
            assert(request@.headers == pdf_request(
                self.config,
                access_token@,
                invoice_number@,
            ).headers);
        }
        request
    }

    /// The PDF of an invoice, by the reply to the request for it.
    pub fn invoice_pdf(&self, delivery: Delivery<PdfReply>) -> (r: Result<Vec<u8>, Failure>)
        ensures
            match r {
                Ok(content) => pdf_problem(delivery) is None && content
                    == delivery->Read_0.content,
                Err(failure) => pdf_problem(delivery) == Some(failure@),
            },
    {
        let pdf = match delivery {
            Delivery::Unsent { cause } => {
                return Err(Failure::caused("failed to fetch SantInvoice PDF".to_owned(), cause));
            },
            Delivery::Unread { status, status_text, cause } => {
                if !http::is_success(status) {
                    proof {
                        reveal_strlit("");
                        assert(""@ == Seq::<char>::empty());
                    }
                    return Err(refuse_pdf(status_text.as_str(), ""));
                }
                return Err(
                    Failure::caused("failed to read SantInvoice PDF body".to_owned(), cause),
                );
            },
            Delivery::Read(pdf) => pdf,
        };
        if !http::is_success(pdf.reply.status) {
            return Err(refuse_pdf(pdf.reply.status_text.as_str(), pdf.reply.body.as_str()));
        }
        Ok(pdf.content)
    }
}

/// The measurements that are asked for are exactly those with a price.
pub proof fn what_is_asked_for_has_a_price(measurement: Seq<char>)
    ensures
        billable_measurements().contains(measurement) <==> price_of(measurement) is Some,
{
    let all = billable_measurements();
    if price_of(measurement) is Some {
        assert(measurement == all[0] || measurement == all[1] || measurement == all[2]
            || measurement == all[3] || measurement == all[4]);
    }
}

/// The row is usage by that project of a measurement with a price.
pub open spec fn is_charged(row: RailwayUsageRow, project_id: Seq<char>) -> bool {
    is_usage_by(row, project_id) && price_of(row.measurement@) is Some
}

/// Each row of usage by the project with a price is charged once, at that price; no other row is.
pub proof fn usage_is_charged_once(rows: Seq<RailwayUsageRow>, project_id: Seq<char>)
    requires
        rows.len() <= usize::MAX,
    ensures
        ({
            let list = charges(rows, project_id);
            &&& forall|i: int|
                0 <= i < list.len() ==> (#[trigger] list[i]).row < rows.len() && is_charged(
                    rows[list[i].row as int],
                    project_id,
                ) && price_of(rows[list[i].row as int].measurement@) == Some(list[i].price)
            &&& forall|i: int, j: int|
                0 <= i < j < list.len() ==> (#[trigger] list[i]).row < (#[trigger] list[j]).row
            &&& forall|n: int|
                0 <= n < rows.len() && is_charged(#[trigger] rows[n], project_id)
                    ==> list.contains(
                    Charge { row: n as usize, price: price_of(rows[n].measurement@)->0 },
                )
        }),
    decreases rows.len(),
{
    if rows.len() > 0 {
        let shorter = rows.drop_last();
        let before = charges(shorter, project_id);
        let list = charges(rows, project_id);
        usage_is_charged_once(shorter, project_id);
        assert forall|i: int| 0 <= i < before.len() implies #[trigger] list[i] == before[i]
            && rows[before[i].row as int] == shorter[before[i].row as int] by {
            assert(before[i].row < shorter.len());
        }
        assert forall|n: int|
            0 <= n < rows.len() && is_charged(
                #[trigger] rows[n],
                project_id,
            ) implies list.contains(
            Charge { row: n as usize, price: price_of(rows[n].measurement@)->0 },
        ) by {
            let charge = Charge { row: n as usize, price: price_of(rows[n].measurement@)->0 };
            if n < shorter.len() {
                assert(rows[n] == shorter[n]);
                assert(before.contains(charge));
                let i = choose|i: int| 0 <= i < before.len() && before[i] == charge;
                assert(list[i] == charge);
            } else {
                assert(list[list.len() - 1] == charge);
            }
        }
    }
}

/// The number of an invoice is found in a reply, but for white space around it, where it is a
/// text, its element and the element with the details are the first of their names, and the
/// details do not hold their closing tag.
pub proof fn invoice_number_is_found(
    before: Seq<char>,
    details_before: Seq<char>,
    number: Seq<char>,
    details_after: Seq<char>,
    after: Seq<char>,
)
    requires
        readback::has_no_tag(number),
        ({
            let details = details_before + xml::plain_tag("number"@) + number + xml::end_tag(
                "number"@,
            ) + details_after;
            let rest = details + xml::end_tag("processedDetails"@) + after;
            let body = before + xml::plain_tag("processedDetails"@) + details + xml::end_tag(
                "processedDetails"@,
            ) + after;
            &&& forall|i: int|
                0 <= i < before.len() ==> !#[trigger] text::occurs_at(
                    body,
                    xml::plain_tag("processedDetails"@),
                    i,
                )
            &&& forall|i: int|
                0 <= i < details.len() ==> !#[trigger] text::occurs_at(
                    rest,
                    xml::end_tag("processedDetails"@),
                    i,
                )
            &&& forall|i: int|
                0 <= i < details_before.len() ==> !#[trigger] text::occurs_at(
                    details,
                    xml::plain_tag("number"@),
                    i,
                )
        }),
    ensures
        ({
            let details = details_before + xml::plain_tag("number"@) + number + xml::end_tag(
                "number"@,
            ) + details_after;
            let body = before + xml::plain_tag("processedDetails"@) + details + xml::end_tag(
                "processedDetails"@,
            ) + after;
            invoice_number_in(body) == Some(text::trimmed(number))
        }),
{
    let details = details_before + xml::plain_tag("number"@) + number + xml::end_tag("number"@)
        + details_after;
    readback::element_is_found(before, "processedDetails"@, details, after);
    readback::white_space_around_does_not_matter(details, "number"@);
    readback::text_holds_no_closing_tag(number, "number"@, details_after);
    readback::element_is_found(details_before, "number"@, number, details_after);
}

proof fn lemma_trailing(s: Seq<char>, c: char, n: nat)
    ensures
        text::without_trailing(s + Seq::new(n, |i: int| c), c) == text::without_trailing(s, c),
    decreases n,
{
    let longer = s + Seq::new(n, |i: int| c);
    if n == 0 {
        assert(longer == s);
    } else {
        lemma_trailing(s, c, (n - 1) as nat);
        assert(longer.drop_last() == s + Seq::new((n - 1) as nat, |i: int| c));
    }
}

/// Slashes at the end of the address of SantInvoice do not matter.
pub proof fn trailing_slashes_do_not_matter(
    plain: SantInvoiceConfig,
    slashed: SantInvoiceConfig,
    slashes: nat,
    path: Seq<char>,
)
    requires
        slashed.base_url@ == plain.base_url@ + Seq::new(slashes, |i: int| '/'),
    ensures
        service_url(slashed, path) == service_url(plain, path),
{
    lemma_trailing(plain.base_url@, '/', slashes);
}

} // verus!
