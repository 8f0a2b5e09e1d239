# goose (verified core)

The per-turn context ("MOIM") that an agent adds to the latest user message
of a conversation, and the decisions taken when an agent-client-protocol
session is created, forked or activated, written in Verus with their
contracts proved.

- `src/text.rs`: whitespace, decimal rendering, line joining, substring search
  and replacement.
- `src/moim.rs`: the turn context: tags, XML escaping, the timestamp, the
  compaction and turn budget lines, composition, framing, and the steps of
  putting it into a conversation.
- `src/conversation.rs`: messages, effective roles, where the turn context
  goes, and which repairs of a conversation are expected.
- `src/mode.rs`: agent modes and the provider hook for mode changes.
- `src/session.rs`: default provider and model resolution, extension data,
  and the steps of creating, forking and activating a session.
- `app/lib.rs`: drivers that run those steps against the host's services
  (turn context injection, session activation, forking and creation), the
  thread-local switch, the clock reading and the floating-point compaction
  point.
- `tests/`: scenarios, run against the compiled library.
