# crabclaw

An agentic coding assistant for the terminal and for Telegram: it routes comma commands
and natural language, talks to OpenAI-compatible, Anthropic and Codex models, runs the
tools the model calls (files, shell, web, skills, schedules), and records each session on
an append-only tape.

## Layout

- `src/` — the library, verified with Verus. Every rule the assistant follows is here with
  its contract: command detection and argument parsing, input routing, the tape and its
  summaries, context building and the system prompt, configuration precedence, the tool
  registry and the progressive tool view, tool-call planning and replies, path
  confinement and file edits, HTML-to-Markdown, Telegram formatting and message
  splitting, access control, the scheduler's job table, the Codex Responses API
  (input items, SSE stream, JWT account id), Anthropic message conversion, OAuth
  PKCE and callback handling, and the errors that failed replies become.
  The calls into `regex`, `sha2`, `base64`, `urlencoding` and `serde_json` sit behind a
  few trusted wrappers whose contracts name what those crates compute.
- `app/` — the program around it: command-line parsing, the file system, processes,
  HTTP, the Telegram bot, the terminal session and the timers. It hands the library
  plain values and acts on what comes back.
- `tests/` — tests of the library on concrete values.

Laws of the library (configuration precedence, confinement of resolved paths, the tape's
summary bounds, scheduler table updates, message chunk limits, access control, tool-name
encoding round trips, SSE folding) are stated as public proof functions next to the code
they are about.
