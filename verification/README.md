# ironclaw-cursor-brain

Use the Cursor agent as an OpenAI Chat Completions backend for Ironclaw:
`POST /v1/chat/completions` (plain and SSE), `GET /v1/models`, `GET /v1/health`.

## Layout

- `src/` — the library, verified with Verus:
  - `text` — whitespace trimming, line splitting, joining and unsigned
    decimal parsing over characters;
  - `json` — the JSON model the library reads and the one `serde_json` call
    that parses text into it;
  - `cursor` — cursor-agent arguments, stream-json events, how they fold
    into a completion or a stream of deltas, and the model listing;
  - `openai` — user message extraction, response and stream chunk building,
    SSE framing;
  - `config` — config file and environment merging, config paths,
    cursor-agent search paths and detection;
  - `session` — the least-recently-used session mapping, and its
    persisted form (`[external, cursor]` pairs, least recent first);
  - `service` — request input, completion ids, the retry rule (plain and
    streaming);
  - `server` — what the routes answer: error mapping, health, model list.
- `app/` — the HTTP server, the cursor-agent subprocess, file and
  environment access, and the serializable copies of the library's types.
- `tests/` — tests of the library.

Configuration: optional `~/.ironclaw/cursor-brain.json`, overridden by the
environment (`CURSOR_PATH`, `PORT` or `IRONCLAW_CURSOR_BRAIN_PORT`,
`REQUEST_TIMEOUT_SEC`, `SESSION_CACHE_MAX`, `SESSION_HEADER_NAME`,
`CURSOR_BRAIN_DEFAULT_MODEL`, `CURSOR_BRAIN_FALLBACK_MODEL`). Session
mappings are kept in `~/.ironclaw/cursor-brain-sessions.json`.
