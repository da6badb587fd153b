# railway_santinvoice

Bills the Railway usage of a project: reads its configuration from environment variables, asks
Railway for the previous completed billing period and the usage in it, gets an OIDC access token,
submits an invoice to SantInvoice, and, where that is configured, mails the PDF of the invoice.

The library under `src/` is written in Verus. It holds every decision of a run and none of its
input and output; `app/` is the program around it.

| Module | What it states |
| --- | --- |
| `text` | trimming, searching, comparing and joining of texts |
| `failure` | reports as chains of messages |
| `calendar` | dates, instants, and the billing period before an instant |
| `config` | what the environment variables mean, and what is wrong with them |
| `models` | the billing and the invoice made of it |
| `xml` | the document of an invoice, and values looked up in a text |
| `readback` | what can be read back of such a document |
| `http` | requests and replies |
| `clients` | what is asked of the services, and what their replies mean |
| `keys` | idempotency keys |
| `email` | the mail that carries the PDF |
| `workflow` | the course of a run, as a function from state and event to the next step |
| `runs` | what holds of every run |

What the library takes from other crates (`base64`, `chrono`, `lettre`, `quick-xml`, `reqwest`,
`uuid`) stands behind small functions marked `external_body`, each with a comment that says what
its contract claims.

Amounts of money are floating-point numbers, which the library does not compute with: it says
which usage is charged at which price, and takes the sum as its sign and its text.

What goes wrong before an invoice is submitted fails the run. Once it is submitted, what goes wrong
with the PDF or the mail is a warning.
