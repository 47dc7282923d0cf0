# personal-log-ai

A personal input-statistics assistant: it records typing, mouse clicks,
clipboard changes, application switches and input-method text, tracks which
application or web site has the focus, and has an AI service (MiniMax,
OpenAI, Volcengine or a custom OpenAI-style endpoint) analyse the recent input.

## Layout

- `src/` — the verified library (Verus). Every rule of the assistant lives
  here with its contract:
  - `input` — the recorder: pausing, the application blacklist, password
    fields, clipboard secrets, typing sessions and their summaries;
  - `privacy` — the blacklist, password-field and secret detection (Luhn,
    JSON web tokens, AWS keys, private keys);
  - `todo`, `due` — to-do items and their due dates, read from typed text;
  - `focus` — focus targets, web-site domains and focus sessions;
  - `config` — settings with built-in defaults;
  - `scheduler` — when the analyses and the clean-up run;
  - `analysis` — which service is called, the text and prompt sent, and what
    is kept of the reply;
  - `query`, `export` — the event-browser query and the CSV export;
  - `keys`, `ime`, `desktop` — key classification, input-method messages,
    tray and input-method status decisions;
  - `text`, `dates`, `clock`, `stats` — shared text, calendar, clock and
    duration helpers;
  - `laws` — properties that span several operations.
- `tests/` — tests of the library.
- `app/` — the program around it: SQLite storage, HTTP calls, the
  input-method socket and the JSON decoding of its messages (their
  timestamps come as fractional seconds), the macOS event sources, background loops, and the
  floating-point typing metrics.
