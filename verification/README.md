# actor

Verified decision logic of a conversational actor: what its tools may do and
answer, how a session runs, and what it shows the model.

- `src/` — the library, verified with Verus.
  - `text`, `json` — character-level string helpers and a JSON value model
    (numbers in millionths) with its plain-value view and the lookups tool
    arguments need.
  - `model` — plain-value models of messages, memories, intents and the
    session's permission context.
  - `tools` — the tool catalogs (`decision`, `intent`, `memory`, `messaging`),
    each schema stated exactly, and `permission`, which decides whether a
    tool call may run.
  - `memory`, `intent`, `messaging` — the tool logic: evidence and subjects of
    new memories, recall planning and ordering, promotion and demotion,
    intents and their approval requests and answers, reads and their
    answers, summaries, sends (target, records, answer).
  - `session` — messages that arrive while a session works, each shown once.
  - `flow` — the session's retry, turn and result decisions, streamed-turn
    collection, and what the model sees of attachments.
  - `social_read`, `formats` — prompt context: durations, quiet hours,
    safety notes, memory packs, the social relations and thoughts shown and
    their order, relation evidence, typing lines, timestamps and inline
    images.
  - `social_path` — the bounded search for a trusted path to a chosen
    person (sound, and complete when it runs out), and the trust ceiling it
    decides.
- `app/` — the runtime edge: serde_json conversion, prompt snapshots, tool
  argument parsing, the send and social-path drivers and the session loop.
- `tests/` — tests of the library.
