# agent_forge

A framework for running tool-using AI agents against Ollama or OpenRouter,
with its decision logic written in Verus and proved against its contracts.

## Layout

- `src/` — the verified library.
  - `agent_prompt` parses `## Section` Markdown prompts.
  - `config` holds the provider and session settings, their defaults and the
    command-line overrides; `agent` the settings an agent is built with.
  - `client` builds the messages and request bodies, chooses the client for a
    provider, and reads streamed answers (Ollama lines, OpenRouter events).
  - `session` decides each step of a run (`LoopController`: repeated calls,
    the creation cap, the round limit, how state changes are reported),
    gathers a streamed answer (`stream`) and keeps sessions (`store`).
  - `tools` keeps file paths inside the working directory (asking the
    filesystem one question at a time through `create_step`) and parses the
    arguments and renders the answers of the file tools; `tools::schema`
    builds their argument schemas; `tools::registry` keeps the slot of each
    registered tool name; `memory` is the key-value state tools.
  - `summarizer` builds the summary request; `event` the events of a run;
    `json`, `text` and `ordmap` the values, text and ordered maps all of
    this is stated over.
- `app/` — the command-line program: HTTP, files, SQLite, the async run
  loop and printing, around the library.
- `tests/` — tests of the library.
