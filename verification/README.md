# jarvis

The verified core of the Jarvis terminal assistant.

- `src/` — the library, verified with Verus:
  - `tools/` — the filesystem jail and command allowlist of the assistant's
    tools (`sandbox`, `path`, `command`), how each tool call is planned and
    its result shaped (`executor`, `report`, `output`), and the tool
    definitions offered to models (`definitions`).
  - `session` — approval of mutating tool calls (failing closed), result
    summaries, and the tool round state machine; `chat` — a conversation's
    history and how tool rounds extend it.
  - `ai/` — provider-independent types and routing, credentials and
    endpoints (`providers`), per-provider request layouts (`messages`),
    server-sent event framing (`sse`) and stream assembly (`stream`).
  - `pair` — pair-programming frame authentication (signatures, identity
    pinning, replay protection, host authority), routing of room events
    (signed-join enforcement), invites and the replay buffer.
  - `pty`, `ui`, `audio`, `assistant`, `text` — terminal pane registry and
    shell launch plan, UI decisions, WAV encoding and music library order,
    assistant configuration, string helpers.
- `app/` — the host side that Verus does not see: disk and process work,
  HTTP clients, PTY processes, floating-point audio and mouse geometry, JSON
  conversion.
- `tests/` — tests of the library through its public API.
