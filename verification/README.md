# mxbot-common

Shared Matrix infrastructure for the mxbot fleet, verified with Verus.

`src/` is the library: what a bot decides and computes. Verus proves the
contracts of its functions, and the laws that relate several of them: the
public proof functions whose names start with `law_`.

The proofs rest on a few contracts that Verus believes without proof. They say
what the standard library and outside crates do, and stand where the library
calls these: in functions marked `external_body`, in `assume_specification`
items and in type declarations, in `ids` (reading Matrix identifiers), `retry`
(the clock), `settings` (reading JSON) and `text` (strings and characters).
Each says in its comment what is believed of which function.

| Module | What it does |
| --- | --- |
| `admin` | The admin console: commands, access, replies |
| `bot` | The options of a bot, and the services every bot shares |
| `config` | `[matrix]` and `[security]`, allow-lists, times of day |
| `format`, `markup` | Text with mentions and light markup as messages |
| `logging` | The default log filter |
| `persist` | The steps that save and load a state file |
| `retry` | Exponential backoff with optional jitter |
| `rooms` | Invites, joining, admin direct chats, broadcasts |
| `send` | Retrying a message under one transaction ID, threads |
| `session` | What a session needs, and when to bootstrap cross-signing |
| `settings` | Runtime settings that admins can change over chat |
| `sync` | The delays between sync sessions |
| `verify` | Who may verify with the bot, grants, flows and SAS |
| `ids`, `text`, `number`, `order`, `time` | What the other modules are made of |

`app/` is the rest: the Matrix client, event handlers, files, the environment
and the clock. It hands the library what it found and carries out what comes
back. The parts of `app/` that deal with end-to-end encryption (`crypto` and
`verify`) and the sqlite store need the SDK's `e2e-encryption` and `sqlite`
features.

`tests/` runs the library on concrete values.
