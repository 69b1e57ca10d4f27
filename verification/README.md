# tmux-agent-sidebar

A sidebar for tmux that lists the coding agents of a server, verified with Verus.

- `src/` is the library: what the sidebar, its commands, its hook and its daemon
  decide, with contracts and proofs.
- `app/` is the program around it: tmux, sockets, files, threads, keys, payloads,
  and drawing.
- `tests/` runs the library.

Whatever alternates between asking tmux and deciding is a state machine: `step`
says what to ask or do, and `resume` takes what came of it. Each has a
mathematical counterpart, over which the laws at the end of each module are
stated. Times are nanoseconds on one monotonic clock and are handed in.

| module | what it decides |
| --- | --- |
| `app` | when the event loop draws, waits, animates and refreshes |
| `cli` | the commands: toggle, toggle-all, width keeping, auto-close, hook |
| `shared_snapshot` | the daemon, its cache, its lock, its requests, its clients |
| `state` | filters, the agent list, clicks, the bottom panel |
| `ui` | what a frame shows where |
| `tmux` | what is asked of tmux, and what its answers mean |
| `event`, `adapter` | how agents' reports are handled |
| `version` | when a newer release is announced |
| `runtime` | names of the files at which processes meet |
| `text`, `json`, `clock` | text, JSON members, time |

Not proved, but stated where they are called: `String::push` of the standard
library, `Rect::contains` and `Layout::split` of ratatui, and reading a string
member of a JSON document with serde_json.
