# Guild mirror

Mirrors guilds into others: their channels, roles, threads and messages.

- `src/` is the library, verified with Verus. Every event, and setting a mirror up, is a task:
  a state machine that asks for one operation after the other and goes on from each answer.
  `src/operation.rs` has the operations, the answers and the trait `Task`. `src/handlers/` has
  what events lead to, `src/util/` what setting up leads to. The contract of a task is its spec
  function `step`: what it asks for next, or how it ends, after each answer in each state.
  `src/table.rs` has the table of mappings that is answered from. What whole runs make of that
  table is stated beside each task, and in `src/util/again.rs` that setting a mirror up a second
  time changes nothing. `src/event_handler.rs` has the loop in which events are handled, and that
  it handles each of them once, one at a time and in order. `src/validation.rs` has the limits
  within which requests are made.
- `app/` is the program around it. It reads the configuration, receives events, and performs the
  operations.
- `tests/` runs the library against canned answers.

The client library, the HTTP library and the regular expressions are called through a few
functions whose contracts are taken on trust: `captured_groups` in `src/mention.rs`,
`channel_name`, `channel_topic`, `thread_kind`, `webhook_username`, `message_content`,
`attachment_filename` and `message_embeds` in `src/validation.rs`, which also names why embeds
are refused (`embeds_refusal`), and `new_headers` and
`insert_header` in `src/util/http.rs`, which also declares the types `http::HeaderMap` and
`http::HeaderValue` and names what a table of headers holds. So is the contract on
`String::push` of the standard library in `src/text.rs`.
