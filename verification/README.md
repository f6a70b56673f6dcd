# nanobot

The message-routing, command and channel logic of the nanobot agent, written in
Verus: every function in `src/` carries a contract that the verifier proves, except
the small wrappers marked `#[verifier::external_body]` that call outside crates
(`regex`, `mail-parser`, `lettre`, `serde_json`) and a few std functions. Their
contracts are trusted, not proved: each states what the outside code does, or names
its result with a `pub uninterp spec fn`, and the verified code builds on that.

- `src/text.rs` — character-sequence helpers (trimming, searching, joining,
  decimal numbers) with their specifications.
- `src/pattern.rs` — regular expressions through the `regex` crate.
- `src/agent/` — slash commands and their replies, system-message routing, the
  decisions of the reasoning loop (iterations, tool batches, final content), memory
  consolidation rounds, which tools are registered, lifecycle hooks and progress
  messages, the `message` tool.
- `src/channels/` — inbound and outbound messages and their metadata, channel
  errors, the channel manager, and the DingTalk, Feishu and e-mail channels:
  permissions, which incoming messages are taken in, card and post text
  extraction, IMAP fetch decisions, reply planning and the reply's mailboxes.
- `tests/` — tests of the library on concrete values.
- `app/` — the network sessions, background tasks and JSON forms around the
  library.

Public `law_*` proof functions state properties that relate several functions,
such as that a session key parses back into its parts, that the memory of handled
e-mail stays bounded, or that an accepted e-mail passed every sender check.
