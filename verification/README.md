# wake

Keeps a machine awake from the command line on macOS, Linux and Windows, with its rules verified by Verus.

## Layout

- `src/` is the verified library. It decides; it does no input or output.
  - `dispatch`, `commands`: what the words on the command line ask for, and how a session is started, shown and
    stopped, as machines that are fed with events and ask for actions.
  - `durations`, `time`, `run`: lengths of time, instants, clock times and the conditions that end a session.
  - `session`: the saved state, which is strict and read back as it was written.
  - `supervisor`: the helpers of a session, the Windows worker and the guardian of its lid setting.
  - `lid`: recovery and watchdogs for machines that stay awake with the lid closed.
  - `platform`, `sysutil`: what differs between systems, processes and their identities.
  - `interactive`: the menu.
  - `text`, `error`: texts and errors.
- `app/` is the program: it performs what the library asks for and hands back what happened.
- `tests/` runs the library on values.

## What is trusted

`time.rs` calls `chrono` for calendar work and RFC 3339 texts; `text.rs` and `session.rs` call the standard library
for lower case and UTF-8. What each call is taken to do stands in the contract above it.
