# Flint

Flint is a local gateway for containerized agents. It answers the runtime API of a hosted agent
service: callers invoke a runtime, run commands in its session, stop the session or read an agent
card, and every session gets a container of its own.

The project has three parts.

- `src/` is the library. It holds what the gateway decides: who may call a runtime, which runtimes
  there are, when a session's container starts and stops, what a container sees of a request and
  what a caller sees of its answer. It is written in Verus. Every function states what it returns
  in an `ensures` clause, and what holds of the library as a whole is stated and proved in the
  functions whose names start with `law_`.
- `app/` is the program around it: the HTTP server, the Docker client, the SQLite database and the
  environment. It does the work that the library asks for and hands back what came of it.
- `tests/` runs the library on given values.

## How it is laid out

| Part | Modules |
| --- | --- |
| Plain values | `text`, `number`, `order`, `labels`, `headers`, `json`, `wildcard`, `primitives` |
| Who may call a runtime | `policy`, `sigv4`, `auth` |
| Which runtimes there are | `descriptor`, `arn`, `environment`, `catalog`, `registry`, `images`, `discovery`, `preflight`, `config` |
| Sessions and containers | `session_map`, `session`, `pins`, `session_store`, `container`, `backend`, `startup` |
| Requests and answers | `edge`, `proxy`, `event_stream` |
| Invocations in containers of their own | `attempt`, `invocation` |

Sessions are a table with events (`session`): asking for a container, its start, its stop, a health
check and the passing of time each take the table to its next state and say what is to be done.
Times are nanoseconds on one clock, so the table never reads it.

What other crates compute (digests, JSON, dates, random identifiers) is called through the functions
marked `#[verifier::external_body]`. Their contracts are taken for granted; the comment above each
says what is claimed of which function.
