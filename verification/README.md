# Watchcat

Watchcat is a local reliability manager for AI coding sessions. Its background service
`watchcatd` discovers recent sessions, classifies structured failures, and continues failed turns
under bounded policies. The `watchcat` command line controls the service over a local socket.

The decisions stand in a library that is verified with [Verus](https://github.com/verus-lang/verus).
Everything that touches the system stands around it.

## Layout

- `src/` is the library. Every function states in its contract what it returns or changes.
  - `text`, `textmap`, `order`, `time`, `json`, `ids`: the values that the rest is made of.
  - `models`, `protocol`, `conditions`, `config`: sessions, failures, messages, policies, settings.
  - `state`: the watchlist, the recovery state, the revision, and the log of events.
  - `engine`: when a failed turn is continued, when not, and how a continuation in flight ends.
  - `daemon`: the answers of the service, its polls, and the retries that a user asks for.
  - `providers`, `transport`: what providers say, and how it is spoken to them.
  - `os_permissions`: the rules by which desktop dialogs are recognized and answered.
  - `service`, `cli`, `client`: registration with the system, the command line, and its connection.
- `app/` is the program around the library: files, sockets, processes, and the desktop. Started as
  `watchcatd` it is the service, otherwise the command line.
- `tests/` runs the library on concrete values.

Properties that span functions are public proof functions beside what they speak of. Among them:
a failed turn is continued at most once (`engine::recovery`), retries are delayed and bounded
(`engine::policy`), a revoked permission sends nothing (`engine::permit`), a manual removal persists
(`state::watchlist`), a stale client changes nothing (`daemon::control`), a repeated retry request
gives one operation in every later state (`daemon::retries`), a lost acknowledgement is never shown
as an unsent request (`transport::jsonrpc`), and recovery never steers active work
(`transport::codex_desktop`).

On macOS the program also needs the crates `block2`, `objc2`, `objc2-app-kit`,
`objc2-application-services`, `objc2-core-foundation` and `objc2-foundation`, which build nowhere
else and are therefore not among the dependencies.
