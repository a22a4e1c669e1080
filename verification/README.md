# AgentSSH

An SSH toolkit for programs: one-shot commands, long-lived sessions behind a
daemon, file operations, proxies and saved profiles.

- `src/` is the library, verified with Verus. It decides: which known host a key
  belongs to, how a login proceeds, what a session's state is after each message
  on its channel, what the daemon answers, what a command prints. It opens no
  sockets and no files.
- `app/` is the `agentssh` program: it parses the command line, moves bytes and
  hands the outcome of each step back to the library.
- `tests/` runs the library on concrete values.

The daemon is a state machine. `kernel::ServerState::handle_request` turns a
request into a `Step`: an answer, or work for the program, which then calls the
function that the step names with the outcome. What holds of the state at all
times is `state::ServerView::consistent`: every session and proxy has its
connection, and every connection counts its users.

What the library relies on without proof is marked in place: the functions of
`base64`, `regex`, `russh`, `shell-words` and the standard library that it calls.
