# omp_visualizer

A browser for omp coding-agent sessions: it lists the session logs under
`~/.omp/agent/sessions`, renders a session as a timeline of capsules and as a
conversation, searches it, and serves it all over HTTP.

The library under `src/` holds the logic, each function with a contract proved by
Verus:

- `models` — session log entries and the views served to the frontend;
- `session::parser` — previews, kinds and capsule seeds of entries, and assembling a
  parsed log;
- `session::store` — directory names, session metadata, the sorted listing and its
  filter;
- `session::index` — file fingerprints and full-text query expressions;
- `api::export` — a parsed session as messages and raw events, each addressed by line
  and event;
- `api::payloads` — the timeline, track and slim payloads, subagent skeletons and line
  lookups;
- `api::search` — searching a conversation, with the snippets around each match;
- `api::cache` — entity tags, gzip and how a timeline request is answered from the
  cache or afresh;
- `api::pages` — the plain pages served when no template renders;
- `text`, `json`, `timefmt`, `paths` — strings, and the calls into serde_json, chrono
  and `std::path` whose results the contracts name.

`app/` is the server around it: reading the file system and the environment, the
serde forms of the log entries, the SQLite cache, the templates and the axum routes.
