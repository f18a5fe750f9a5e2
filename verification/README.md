# savvagent

The verified core of a terminal coding agent: the decisions, parsers and
stream decoders of the host, its providers and its plugins, written in Verus
with contracts over mathematical models.

## Layout

- `src/` — the library, verified by Verus.
  - `protocol` — the records exchanged with providers, and abstract views of
    content blocks and stream events.
  - `sse`, `anthropic`, `gemini`, `ollama_chat`, `ollama`, `openai` — the
    event-stream decoder and the per-provider accumulators, request builders
    and error mapping.
  - `json`, `gemini_schema` — a plain JSON value and the rewrite of tool
    schemas into the subset Gemini accepts.
  - `permissions`, `sensitive_paths`, `paths`, `sandbox`, `project` — the
    tool-call policy, the sensitive-path floor, the sandbox wrappers and the
    project instructions.
  - `turn` — the tool-use loop of a turn as a state machine: the embedder
    performs each action (provider round-trip, gate, tool run) and hands
    back its result; the history is committed only when the turn finishes.
  - `session`, `tools`, `subhost`, `capabilities`, `config`,
    `default_prompt` — the decisions of a turn, tool routing, and the host's
    configuration and system prompt.
  - `fence`, `canvas`, `plugin`, `guest_json`, `text` — fenced-HTML
    splitting, canvas click interception, plugin records and shared text
    helpers.
- `tests/` — tests run against the compiled library.
- `app/` — the unverified shell: files, environment, process spawning, the
  serde wire formats (converting to and from the library's types), saving
  and loading transcripts, and the loop that drives a turn through the
  embedder's callbacks and reports its events.

## Maps held as vectors

The sandbox's per-tool overrides (`ToolOverrides`) and the registry's
routes (`RoutingTable`) are keyed by names. With `String` keys Verus
proves nothing about what a `HashMap` holds, so both are ordered vectors
whose keys are unique, and that uniqueness is stated as their invariant.
Lookups find the one entry with the key, as the map did.

## Not covered

- The OpenAI streaming accumulator: its source, in the provider for
  OpenAI-compatible endpoints, holds unresolved merge-conflict markers, so
  there is no single behaviour to state. The OpenAI provider's
  configuration is in `openai`.
- Tool-server I/O: connecting to MCP servers, listing their tools and
  calling them, and spawning or cancelling the shell server. The routing
  table, the respawn decision and the outcome of a failed spawn are in
  `tools`; the MCP client itself is not a dependency here.
- Rendering canvas HTML to pixels: it goes through a layout engine and a
  renderer working in floating point.
- The WASM plugin adapter and the subagent loop; only their records and
  errors (`plugin`, `guest_json`, `subhost`) are here.
- The message format of saved transcripts follows the content-block shape
  used on the wire (`type`-tagged blocks); the protocol's own format
  description was not available.
