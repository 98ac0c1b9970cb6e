# zcode_gateway

A local API gateway that serves OpenAI and Anthropic compatible requests from a
pool of accounts. `src/` holds its logic as a verified library; `app/` holds the
asynchronous program around it.

| Module | What it decides |
|--------|-----------------|
| `models` | the catalogue of models and what thinking costs |
| `translate`, `sse`, `stream`, `utf8` | requests, answers and streams from one format to the other |
| `body`, `prompt`, `identity`, `upstream` | what is sent to the upstream |
| `pool`, `attempt`, `handler` | which account serves a request, and what becomes of an answer |
| `routing`, `signing`, `captcha`, `repair` | where requests go, how they are signed, tickets and keys |
| `server`, `reply`, `gateway`, `logs`, `flowlog` | who may ask, what is told, and what is noted down |
| `json`, `headers`, `crypto`, `clock`, `url`, `text` | values, and the doors to outside crates |

Contracts speak of plain values: characters, bytes, JSON trees and rows of a
type's fields. What holds of several functions together stands at the end of each
module, in proof functions whose names begin with `law_`.

Everything that is believed of other crates stands in items marked
`external_body` or `assume_specification`, each with a note of what it claims.
