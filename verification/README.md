# AI Board

A live planning board for agentic development: a spec owns tickets, a ticket
owns tasks, and the `abd` program keeps them in a SQLite database, serves an
editable board over HTTP and runs one-shot agent turns over ACP.

The board's rules are a library verified with Verus; the program around it
does the I/O.

## Layout

- `src/` — the verified library (`ai_board`):
  - `models` — ticket statuses and task work types (names and parsing), and
    the JSON of tickets, tasks and specs;
  - `board` — what each command accepts or refuses, and the JSON it answers;
  - `api` — reading request bodies of the HTTP API and shaping its answers;
  - `http` — request paths, query strings, ids and routes;
  - `error` — the errors and their messages;
  - `json` — JSON values and their compact text;
  - `config` — agents files: layering, validation, paths;
  - `agent`, `event`, `turn` — the decisions of an agent turn and the JSON
    lines it reports;
  - `text` — whitespace trimming, substring search, decimal integers;
  - `ui` — the board's web page.
- `app/` — the `abd` program: command line, database statements, the HTTP
  server loop and the ACP client.
- `tests/` — tests of the library.
