# codex_recall

Three jobs around recorded Codex sessions, as a library of functions that Verus
proves correct:

- finding threads by what was said in them or what they are called, with
  previews and pages of results;
- telling that a SQLite state database is damaged, and recovering it;
- deciding where an MCP server runs.

`src/` holds every rule of these jobs. Nothing in it reads a file, runs a
process or talks to a database: where a job needs that, a function says what to
do next and another one takes what came of it. `app/` performs those actions
with tokio, sqlx, SQLite's recovery extension and serde. `tests/` runs the
library on concrete values.

| Part of `src/` | What it is about |
| --- | --- |
| `text`, `order`, `byte_index` | texts as sequences of characters |
| `path_text`, `rollout_path` | paths, taken apart, joined and ordered |
| `preview`, `conversation` | what a rollout says, and previews of it |
| `rollout_search` | threads that match by content or by title |
| `thread_item`, `thread_search`, `thread_page` | a page of search results |
| `malformed` | errors that tell of a damaged database |
| `recovery_*`, `recover_api` | recovering a database, step by step |
| `mcp_runtime` | the runtime of an MCP server |

Modules whose names end in `_laws` state what holds of whole sequences of steps.
