# Agile Inc.

A small multi-agent software team: a product owner, a developer and a QA agent
exchange events over MQTT, keep their documents in Redis, ask a language model
for analysis and run commands (the `opencode` CLI, `cargo` gates) to build and
test stories. An audit web tool shows the documents and the bus traffic.

## Layout

- `src/` is the verified library (Verus). Every handler of every agent is a
  step function from a state and the answer of the last request to the next
  state and the next request (`agent::Effect`), with a contract that states
  exactly what is asked, stored and published:
  - `text`, `json`: strings and the JSON document model (lookup, member
    assignment, compact and indented text, reading JSON text);
  - `types`, `config`: documents, events, policies, settings and their
    defaults, environment overrides, topic names;
  - `prompts`: the prompts sent to the model;
  - `runner`: output truncation, run results, `git diff --numstat` sums;
  - `audit`: document listings and details, the HTML views, the bus message
    buffer and new-document detection;
  - `dev`, `qa`, `po`: the agents' decisions (idempotency, change budget,
    definition-of-done gates, bug filing, the model dialogue, story creation
    and refinement).
- `tests/` runs the library on concrete values.
- `app/` is the program around it: configuration files, Redis, MQTT, HTTP to
  the model server, child processes, the agents' event loops and the axum
  server of the audit tool. Run it as `agile-inc po|dev|qa|audit|publish`.
