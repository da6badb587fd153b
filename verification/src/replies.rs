//! What is asked of the services and what their replies mean, stated on the requests and replies
//! themselves.

use vstd::prelude::*;

use crate::calendar;
use crate::calendar::BillingPeriod;
use crate::clients;
use crate::clients::GraphQlDelivery;
use crate::clients::GraphQlError;
use crate::clients::PdfReply;
use crate::clients::ProjectOnlyEnvelope;
use crate::clients::RailwayClient;
use crate::clients::UsageEnvelope;
use crate::clients::WorkspaceEnvelope;
use crate::config;
use crate::config::OidcConfig;
use crate::config::PdfEmailConfig;
use crate::config::RailwayConfig;
use crate::config::SantInvoiceConfig;
use crate::email;
use crate::email::InvoiceEmail;
use crate::email::MailFault;
use crate::failure::Failure;
use crate::http;
use crate::http::Body;
use crate::http::BodyView;
use crate::http::Decoded;
use crate::http::Delivery;
use crate::http::HttpReply;
use crate::http::HttpRequest;
use crate::http::RequestView;
use crate::http::Variable;
use crate::http::VariableView;
use crate::keys;
use crate::models::AccessTokenResponse;
use crate::models::SubmissionResult;
use crate::text;
use crate::xml;

verus! {

/// The status codes from 200 to 299 are those of success.
pub proof fn success_is_a_range_of_codes(status: u16)
    ensures
        http::is_success_code(status) <==> status as int / 100 == 2,
{
}

/// An error of a reply is told by its message, and in brackets by its code and its trace where it
/// has them.
pub proof fn errors_are_told_on_one_line(error: GraphQlError)
    ensures
        ({
            let line = clients::error_line(error);
            let code = error.extensions.code;
            let trace = error.extensions.trace_id;
            &&& code is None && trace is None ==> line == error.message@
            &&& code is Some && trace is None ==> line == error.message@ + " (code: "@ + code->0@
                + ")"@
            &&& code is None && trace is Some ==> line == error.message@ + " (traceId: "@
                + trace->0@ + ")"@
            &&& code is Some && trace is Some ==> line == error.message@ + " (code: "@ + code->0@
                + ", traceId: "@ + trace->0@ + ")"@
        }),
{
}

/// A reply to a query is good exactly where it was read, decodes and reports no list of errors; its
/// data are then those that it decodes to. All errors of a list are told, in order.
pub proof fn replies_to_queries_are_read<T>(delivery: GraphQlDelivery<T>)
    ensures
        clients::graphql_problem(delivery) is None <==> (delivery is Read
            && delivery->Read_0.value is Ok && delivery->Read_0.value->Ok_0.errors is None),
        clients::graphql_problem(delivery) is None ==> clients::graphql_data(delivery)
            == delivery->Read_0.value->Ok_0.data,
        delivery matches Delivery::Unsent { cause } ==> clients::graphql_problem(delivery) == Some(
            seq!["failed to call Railway GraphQL API"@, cause@],
        ),
        delivery matches Delivery::Unread { status, status_text, cause }
            ==> clients::graphql_problem(delivery) == Some(
            seq!["failed to read Railway GraphQL response with status "@ + status_text@, cause@],
        ),
        delivery matches Delivery::Read(decoded) ==> {
            &&& decoded.value matches Err(cause) ==> clients::graphql_problem(delivery) == Some(
                seq![
                    "failed to decode Railway GraphQL response with status "@
                        + decoded.reply.status_text@ + ": "@ + decoded.reply.body@,
                    cause@,
                ],
            )
            &&& decoded.value is Ok && decoded.value->Ok_0.errors is Some ==> {
                let errors = decoded.value->Ok_0.errors->0@;
                let lines = clients::error_lines(errors);
                &&& lines.len() == errors.len()
                &&& forall|i: int|
                    0 <= i < errors.len() ==> #[trigger] lines[i] == clients::error_line(errors[i])
                &&& clients::graphql_problem(delivery) == Some(
                    seq!["Railway GraphQL returned errors: "@ + text::joined(lines, "; "@)],
                )
            }
        },
{
}

/// The project is identified exactly by a good reply that holds one.
pub proof fn projects_are_identified(delivery: GraphQlDelivery<ProjectOnlyEnvelope>)
    ensures
        clients::graphql_problem(delivery) is Some ==> clients::project_problem(delivery)
            == clients::graphql_problem(delivery),
        clients::graphql_problem(delivery) is None ==> {
            let data = delivery->Read_0.value->Ok_0.data;
            if data is Some && data->0.project is Some {
                clients::project_problem(delivery) is None && clients::project_of(
                    clients::graphql_data(delivery),
                ) == data->0.project
            } else {
                clients::project_problem(delivery) == Some(
                    seq!["Railway GraphQL response did not include "@ + "project"@ + " data"@],
                )
            }
        },
{
}

/// The start of the billing period is the one in a good reply, as it reads.
pub proof fn period_starts_are_read(delivery: GraphQlDelivery<WorkspaceEnvelope>)
    ensures
        clients::graphql_problem(delivery) matches Some(report) ==> clients::period_problem(
            delivery,
        ) == Some(seq!["Railway billing period query failed"@] + report),
        clients::graphql_problem(delivery) is None ==> {
            let data = delivery->Read_0.value->Ok_0.data;
            if data is Some && data->0.workspace is Some {
                let start = data->0.workspace->0.customer.billing_period.start@;
                match calendar::rfc3339_reading(start) {
                    Ok(read) => {
                        let boundary = clients::period_boundary(delivery);
                        &&& clients::period_problem(delivery) is None
                        &&& boundary.date.year == read.0
                        &&& boundary.date.month == read.1
                        &&& boundary.date.day == read.2
                        &&& boundary.second == read.3
                        &&& boundary.nano == read.4
                    },
                    Err(cause) => clients::period_problem(delivery) == Some(
                        seq!["Railway returned an invalid billing-period start"@, cause],
                    ),
                }
            } else {
                clients::period_problem(delivery) == Some(
                    seq![
                        "Railway GraphQL response did not include "@ + "workspace billing"@
                            + " data"@,
                    ],
                )
            }
        },
{
}

/// The usage is the list of rows in a good reply.
pub proof fn usage_is_read(delivery: GraphQlDelivery<UsageEnvelope>)
    ensures
        clients::graphql_problem(delivery) matches Some(report) ==> clients::usage_problem(
            delivery,
        ) == Some(seq!["Railway usage query failed"@] + report),
        clients::graphql_problem(delivery) is None ==> {
            let data = delivery->Read_0.value->Ok_0.data;
            if data is Some && data->0.usage is Some {
                clients::usage_problem(delivery) is None && clients::usage_of(
                    clients::graphql_data(delivery),
                ) == data->0.usage
            } else {
                clients::usage_problem(delivery) == Some(
                    seq!["Railway GraphQL response did not include "@ + "usage"@ + " data"@],
                )
            }
        },
{
}

/// An access token is accepted exactly from a reply of success that decodes and holds one that is
/// not empty.
pub proof fn access_tokens_come_with_success(delivery: Delivery<Decoded<AccessTokenResponse>>)
    ensures
        clients::access_token_problem(delivery) is None <==> (delivery is Read && 200
            <= delivery->Read_0.reply.status < 300 && delivery->Read_0.value is Ok
            && delivery->Read_0.value->Ok_0.access_token@.len() > 0),
        delivery matches Delivery::Unsent { cause } ==> clients::access_token_problem(delivery)
            == Some(seq!["failed to call OIDC token endpoint"@, cause@]),
        delivery matches Delivery::Unread { status, status_text, cause } ==> {
            &&& 200 <= status < 300 ==> clients::access_token_problem(delivery) == Some(
                seq!["failed to decode OIDC token response"@, cause@],
            )
            &&& !(200 <= status < 300) ==> clients::access_token_problem(delivery) == Some(
                seq![
                    "OIDC token endpoint failed with status "@ + status_text@ + ": "@
                        + Seq::empty(),
                ],
            )
        },
        delivery matches Delivery::Read(decoded) ==> {
            let reply = decoded.reply;
            &&& !(200 <= reply.status < 300) ==> clients::access_token_problem(delivery) == Some(
                seq![
                    "OIDC token endpoint failed with status "@ + reply.status_text@ + ": "@
                        + reply.body@,
                ],
            )
            &&& 200 <= reply.status < 300 && decoded.value is Err
                ==> clients::access_token_problem(delivery) == Some(
                seq!["failed to decode OIDC token response"@, decoded.value->Err_0@],
            )
            &&& 200 <= reply.status < 300 && decoded.value is Ok
                && decoded.value->Ok_0.access_token@.len() == 0 ==> clients::access_token_problem(
                delivery,
            ) == Some(seq!["OIDC token response did not contain access_token"@])
        },
{
}

/// A submission is accepted with the status 201, as a new invoice, and with 200, as one that was
/// there; every other status refuses it, with its own report.
pub proof fn submissions_go_by_the_status(delivery: Delivery<HttpReply>)
    ensures
        clients::submission_problem(delivery) is None <==> (delivery is Read && (
        delivery->Read_0.status == 200 || delivery->Read_0.status == 201)),
        delivery matches Delivery::Unsent { cause } ==> clients::submission_problem(delivery)
            == Some(seq!["failed to submit invoice to SantInvoice"@, cause@]),
        delivery matches Delivery::Unread { status, status_text, cause }
            ==> clients::submission_problem(delivery) == Some(
            seq!["failed to read SantInvoice response body"@, cause@],
        ),
        delivery matches Delivery::Read(reply) ==> {
            &&& reply.status == 400 ==> clients::submission_problem(delivery) == Some(
                seq!["SantInvoice rejected the XML syntax: "@ + reply.body@],
            )
            &&& reply.status == 401 || reply.status == 403 ==> clients::submission_problem(delivery)
                == Some(seq!["SantInvoice authorization failed: "@ + reply.body@])
            &&& reply.status == 422 ==> clients::submission_problem(delivery) == Some(
                seq!["SantInvoice rejected the invoice semantics: "@ + reply.body@],
            )
            &&& reply.status != 200 && reply.status != 201 && reply.status != 400 && reply.status
                != 401 && reply.status != 403 && reply.status != 422
                ==> clients::submission_problem(delivery) == Some(
                seq![
                    "SantInvoice returned unexpected status "@ + reply.status_text@ + ": "@
                        + reply.body@,
                ],
            )
        },
{
}

/// What became of a submitted invoice: new with the status 201, there before with 200, with the
/// number that the reply gives.
pub proof fn submission_results_tell_the_reply(result: SubmissionResult, reply: HttpReply)
    requires
        clients::is_submission_result(result, reply),
    ensures
        result.status is Created <==> reply.status == 201,
        result.status is Duplicate <==> reply.status == 200,
        result.response_body@ == reply.body@,
        result.invoice_number is Some <==> clients::invoice_number_in(reply.body@) is Some,
        result.invoice_number matches Some(number) ==> clients::invoice_number_in(reply.body@)
            == Some(number@),
{
}

/// A PDF is accepted exactly from a reply of success.
pub proof fn pdfs_come_with_success(delivery: Delivery<PdfReply>)
    ensures
        clients::pdf_problem(delivery) is None <==> (delivery is Read && 200
            <= delivery->Read_0.reply.status < 300),
        delivery matches Delivery::Unsent { cause } ==> clients::pdf_problem(delivery) == Some(
            seq!["failed to fetch SantInvoice PDF"@, cause@],
        ),
        delivery matches Delivery::Unread { status, status_text, cause } ==> {
            &&& 200 <= status < 300 ==> clients::pdf_problem(delivery) == Some(
                seq!["failed to read SantInvoice PDF body"@, cause@],
            )
            &&& !(200 <= status < 300) ==> clients::pdf_problem(delivery) == Some(
                seq![
                    "SantInvoice PDF request failed with status "@ + status_text@ + ": "@
                        + Seq::empty(),
                ],
            )
        },
        delivery matches Delivery::Read(pdf) ==> !(200 <= pdf.reply.status < 300)
            ==> clients::pdf_problem(delivery) == Some(
            seq![
                "SantInvoice PDF request failed with status "@ + pdf.reply.status_text@ + ": "@
                    + pdf.reply.body@,
            ],
        ),
{
}

/// A lookup gives what stands between the first plain opening tag of an element and the first
/// closing tag after it, without the white space around it; where there is none of these, nothing.
pub proof fn lookups_take_the_first_element(body: Seq<char>, element: Seq<char>)
    ensures
        ({
            let open = seq!['<'] + element + seq!['>'];
            let close = seq!['<', '/'] + element + seq!['>'];
            match text::first_from(body, open, 0) {
                None => xml::xml_value(body, element) is None,
                Some(at) => match text::first_from(body, close, at + open.len()) {
                    None => xml::xml_value(body, element) is None,
                    Some(end) => xml::xml_value(body, element) == Some(
                        text::trimmed(body.subrange(at + open.len(), end)),
                    ),
                },
            }
        }),
{
    reveal_strlit("<");
    reveal_strlit("</");
    reveal_strlit(">");
    assert(xml::plain_tag(element) == seq!['<'] + element + seq!['>']);
    assert(xml::end_tag(element) == seq!['<', '/'] + element + seq!['>']);
}

/// The number of an invoice is the one within the details of the reply.
pub proof fn numbers_stand_in_the_details(body: Seq<char>)
    ensures
        xml::xml_value(body, "processedDetails"@) is None ==> clients::invoice_number_in(
            body,
        ) is None,
        xml::xml_value(body, "processedDetails"@) matches Some(details)
            ==> clients::invoice_number_in(body) == xml::xml_value(details, "number"@),
{
}

/// Every query goes to the configured address with the Railway token, as JSON.
pub proof fn queries_carry_the_token(
    config: RailwayConfig,
    query: Seq<char>,
    variables: Seq<(Seq<char>, VariableView)>,
)
    ensures
        ({
            let request = clients::graphql_request(config, query, variables);
            &&& request.method is Post
            &&& request.url == config.graphql_url@
            &&& request.headers.len() == 2
            &&& request.headers[0] == ("authorization"@, "Bearer "@ + text::trimmed(config.token@))
            &&& request.headers[1] == ("content-type"@, "application/json"@)
            &&& request.body == (BodyView::Graphql { query, variables })
        }),
{
}

/// The queries ask for the configured project and workspace, for the period from its start to its
/// end, and for the measurements that are billed.
pub proof fn queries_ask_for_what_is_configured(client: RailwayClient, period: BillingPeriod)
    ensures
        client.project_variables() == seq![
            ("projectId"@, VariableView::Text(client.config.project_id@)),
        ],
        client.period_variables() == seq![
            ("workspaceId"@, VariableView::Text(client.config.workspace_id@)),
        ],
        client.usage_variables(period) == seq![
            ("workspaceId"@, VariableView::Text(client.config.workspace_id@)),
            ("startDate"@, VariableView::Text(period.start@)),
            ("endDate"@, VariableView::Text(period.end@)),
            (
                "measurements"@,
                VariableView::List(
                    seq![
                        "MEMORY_USAGE_GB"@,
                        "CPU_USAGE"@,
                        "NETWORK_TX_GB"@,
                        "DISK_USAGE_GB"@,
                        "BACKUP_USAGE_GB"@,
                    ],
                ),
            ),
        ],
{
}

/// An access token is asked for with the credentials of the client, and with the scope and the
/// audience that are configured.
pub proof fn tokens_are_asked_for_with_credentials(config: OidcConfig)
    ensures
        ({
            let request = clients::token_request(config);
            &&& request.method is Post
            &&& request.url == config.token_url@
            &&& request.headers.len() == 0
            &&& request.body matches BodyView::Form(fields)
            &&& fields[0] == ("grant_type"@, "client_credentials"@)
            &&& fields[1] == ("client_id"@, config.client_id@)
            &&& fields[2] == ("client_secret"@, config.client_secret@)
            &&& fields.len() == 3 + (if config.scope is Some {
                1int
            } else {
                0
            }) + (if config.audience is Some {
                1int
            } else {
                0
            })
            &&& config.scope matches Some(scope) ==> fields[3] == ("scope"@, scope@)
            &&& config.audience matches Some(audience) ==> fields.last() == ("audience"@, audience@)
        }),
{
}

/// An invoice is submitted to the address of SantInvoice, whatever slashes end it, with the token
/// and the key, as XML; its PDF is asked for by its number.
pub proof fn invoices_are_submitted_with_their_key(
    config: SantInvoiceConfig,
    token: Seq<char>,
    key: Seq<char>,
    payload: Seq<char>,
    number: Seq<char>,
)
    ensures
        ({
            let base = text::without_trailing(config.base_url@, '/');
            let request = clients::submission_request(config, token, key, payload);
            let pdf = clients::pdf_request(config, token, number);
            &&& request.method is Post
            &&& request.url == base + "/submit/invoice"@
            &&& request.headers.len() == 3
            &&& request.headers[0] == ("authorization"@, "Bearer "@ + token)
            &&& request.headers[1] == ("X-Idempotency-Key"@, key)
            &&& request.headers[2] == ("content-type"@, "text/xml"@)
            &&& request.body == BodyView::Text(payload)
            &&& pdf.method is Get
            &&& pdf.url == base + "/pdf-statement/invoice/"@ + number
            &&& pdf.headers.len() == 1
            &&& pdf.headers[0] == ("authorization"@, "Bearer "@ + token)
            &&& pdf.body is Empty
        }),
{
}

/// A key is its prefix, a hyphen and its unique text.
pub proof fn keys_are_written(prefix: Seq<char>, id: Seq<char>)
    ensures
        keys::key_text(prefix, id) == prefix + seq!['-'] + id,
{
    reveal_strlit("-");
    assert("-"@ == seq!['-']);
}

/// A mail goes from the configured sender to the configured recipient, as those read, with the
/// configured words, and carries the PDF under the number of the invoice through the configured
/// server.
pub proof fn mails_are_as_configured(
    mail: InvoiceEmail,
    config: PdfEmailConfig,
    number: Seq<char>,
    pdf: Seq<u8>,
)
    requires
        email::email_problem(config) is None,
        mail.is_of(config, number, pdf),
    ensures
        email::mailbox_reading(config.sender_email@) is Ok,
        email::mailbox_reading(config.recipient_email@) is Ok,
        mail.sender.user@ == email::mailbox_reading(config.sender_email@)->Ok_0.1,
        mail.sender.domain@ == email::mailbox_reading(config.sender_email@)->Ok_0.2,
        mail.sender.name is Some <==> email::mailbox_reading(config.sender_email@)->Ok_0.0 is Some,
        mail.sender.name matches Some(name) ==> email::mailbox_reading(
            config.sender_email@,
        )->Ok_0.0 == Some(name@),
        mail.recipient.user@ == email::mailbox_reading(config.recipient_email@)->Ok_0.1,
        mail.recipient.domain@ == email::mailbox_reading(config.recipient_email@)->Ok_0.2,
        mail.recipient.name is Some <==> email::mailbox_reading(
            config.recipient_email@,
        )->Ok_0.0 is Some,
        mail.recipient.name matches Some(name) ==> email::mailbox_reading(
            config.recipient_email@,
        )->Ok_0.0 == Some(name@),
        mail.subject@ == config.subject@,
        mail.body@ == config.body@,
        mail.attachment_name@ == "invoice-"@ + number + ".pdf"@,
        mail.attachment_type@ == "application/pdf"@,
        mail.attachment@ == pdf,
        mail.relay.host@ == config.smtp_host@,
        mail.relay.port == config.smtp_port,
        mail.relay.username@ == config.smtp_username@,
        mail.relay.password@ == config.smtp_password@,
        mail.relay.starttls == config.smtp_starttls,
{
}

/// A mail is not made where the sender, or else the recipient, does not read as a mailbox; what
/// goes wrong later is told by where it went wrong.
pub proof fn mail_problems_are_told(
    config: PdfEmailConfig,
    fault: MailFault,
    customer: Seq<char>,
)
    ensures
        email::mailbox_reading(config.sender_email@) matches Err(cause) ==> email::email_problem(
            config,
        ) == Some(seq!["invalid email address: "@ + config.sender_email@, cause]),
        email::mailbox_reading(config.sender_email@) is Ok && email::mailbox_reading(
            config.recipient_email@,
        ) is Err ==> email::email_problem(config) == Some(
            seq![
                "invalid email address: "@ + config.recipient_email@,
                email::mailbox_reading(config.recipient_email@)->Err_0,
            ],
        ),
        email::mailbox_reading(config.sender_email@) is Ok && email::mailbox_reading(
            config.recipient_email@,
        ) is Ok ==> email::email_problem(config) is None,
        fault matches MailFault::ContentType { cause } ==> email::mail_report(
            fault,
            config,
            customer,
        ) == seq!["invalid PDF content type"@, cause@],
        fault matches MailFault::Message { cause } ==> email::mail_report(fault, config, customer)
            == seq!["failed to build email message"@, cause@],
        fault matches MailFault::Relay { cause } ==> email::mail_report(fault, config, customer)
            == (if config.smtp_starttls {
            seq!["failed to configure STARTTLS relay for "@ + config.smtp_host@, cause@]
        } else {
            seq!["failed to configure relay for "@ + config.smtp_host@, cause@]
        }),
        fault matches MailFault::Send { cause } ==> email::mail_report(fault, config, customer)
            == seq!["failed to send invoice email for customer "@ + customer, cause@],
{
}

/// A request is seen whole: its method, its address, each of its headers in order, and all that it
/// carries.
pub proof fn requests_are_seen_whole(request: HttpRequest)
    ensures
        request@.method == request.method,
        request@.url == request.url@,
        request@.headers.len() == request.headers@.len(),
        forall|i: int|
            0 <= i < request.headers@.len() ==> #[trigger] request@.headers[i] == (
                request.headers@[i].0@,
                request.headers@[i].1@,
            ),
        request.body is Empty <==> request@.body is Empty,
        request.body matches Body::Text(s) ==> request@.body == BodyView::Text(s@),
        request.body matches Body::Form(fields) ==> request@.body is Form
            && request@.body->Form_0.len() == fields@.len() && forall|i: int|
            0 <= i < fields@.len() ==> #[trigger] request@.body->Form_0[i] == (
                fields@[i].0@,
                fields@[i].1@,
            ),
        request.body matches Body::Graphql { query, variables } ==> {
            &&& request@.body is Graphql
            &&& request@.body->query == query@
            &&& request@.body->variables.len() == variables@.len()
            &&& forall|i: int|
                0 <= i < variables@.len() ==> {
                    let seen = #[trigger] request@.body->variables[i];
                    &&& seen.0 == variables@[i].0@
                    &&& variables@[i].1 matches Variable::Text(s) ==> seen.1 == VariableView::Text(
                        s@,
                    )
                    &&& variables@[i].1 matches Variable::List(list) ==> seen.1 is List
                        && seen.1->List_0.len() == list@.len() && forall|j: int|
                        0 <= j < list@.len() ==> #[trigger] seen.1->List_0[j] == list@[j]@
                }
        },
{
}

/// A failure is seen as its messages, each in its place, and a missing text as missing.
pub proof fn failures_are_seen_whole(failure: Failure, value: Option<String>)
    ensures
        failure@.len() == failure.chain@.len(),
        forall|i: int|
            0 <= i < failure.chain@.len() ==> #[trigger] failure@[i] == failure.chain@[i]@,
        config::option_view(value) is Some <==> value is Some,
        value matches Some(s) ==> config::option_view(value) == Some(s@),
{
}

/// The queries, to the letter.
pub proof fn queries_are_these()
    ensures
        clients::PROJECT_IDENTITY_QUERY@ == r"
                    query ProjectIdentity($projectId: String!) {
                      project(id: $projectId) {
                        id
                        name
                      }
                    }
                "@,
        clients::BILLING_PERIOD_QUERY@ == r"
                    query WorkspaceBillingPeriod($workspaceId: String!) {
                      workspace(workspaceId: $workspaceId) {
                        customer {
                          billingPeriod {
                            start
                          }
                        }
                      }
                    }
                "@,
        clients::USAGE_QUERY@ == r"
                    query ProjectUsage(
                      $workspaceId: String!,
                      $startDate: DateTime!,
                      $endDate: DateTime!,
                      $measurements: [MetricMeasurement!]!
                    ) {
                      usage(
                        workspaceId: $workspaceId
                        startDate: $startDate
                        endDate: $endDate
                        includeDeleted: true
                        measurements: $measurements
                        groupBy: [PROJECT_ID]
                      ) {
                        measurement
                        value
                        tags {
                          projectId
                        }
                      }
                    }
                "@,
{
}

/// What comes of asking for a request is that request where nothing is wrong, and the report of
/// what is wrong where something is.
pub proof fn requests_come_where_nothing_is_wrong(
    r: Result<HttpRequest, Failure>,
    problem: config::Problem,
    request: RequestView,
)
    requires
        clients::is_request_outcome(r, problem, request),
    ensures
        r is Ok <==> problem is None,
        r matches Ok(made) ==> made@ == request,
        r matches Err(failure) ==> problem == Some(failure@),
{
}

} // verus!
