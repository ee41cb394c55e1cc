# dev-panel

A terminal dashboard for local development: every listening port, the services of
`dev-panel.toml`, other processes and Docker containers on one screen, to start, stop, restart,
adopt and inspect.

## Layout

- `src/` is the library, verified with Verus. It touches nothing outside: where an action needs
  the system, one function says what is to be done (`launch`, `pending_calls`, `overdue_kills`,
  `respawn_revive`, ...) and another takes in what came of it (`start`, `confirm_pending`,
  `watch_kills`, `watch_respawns`, ...). Time is a count of milliseconds that is passed in.
- `app/` is the program around it: the terminal, processes, signals, sockets, files.
- `tests/` holds the tests of the library.

| Module | What it holds |
|--------|---------------|
| `text`, `split` | text as sequences of characters: numbers, lines, words, joining |
| `ports`, `docker`, `platform`, `health`, `env` | reading what `lsof`, `/proc`, `netstat`, `docker`, `ps`, `systemctl`, `launchctl` and probes print; the commands to run |
| `services`, `manager` | lifecycles of services: health, crashes, backoff, stops, sessions, stacks |
| `system`, `table`, `app`, `rows` | what is known of processes; the state of the panel; its rows |
| `actions`, `confirm`, `adopt`, `quick`, `watch`, `keys` | requests, their confirmation, adoption, quick actions, what is under way, keys and clicks |
| `ui` | what is drawn |
| `laws` | what holds of the panel as a whole |

## How contracts are written

Every type has a ghost view (`App` and `AppView`, `Service` and `ServiceView`, ...), and a
function that changes a value says what its view becomes as a function of the old one and of the
outcome that was handed in: `final(self)@ == confirmed(old(self)@, replies@, now)`.
`App::wf` and `Manager::wf` are the invariants, kept by every operation.

What is believed without proof stands in `text` (`String::push`, `String::pop`,
`str::to_lowercase`), `table` (three methods of ratatui's `TableState`) and `adopt` (how `toml`
writes a string that has no 256 quotes in a row).
