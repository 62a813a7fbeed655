# pitchfork

The decisions behind the front ends of a daemon supervisor, written in Verus:
what the terminal dashboard, the command line and the web page do with what the
user asks and what the supervisor answers.

- `src/` is the library. Every function states what it returns or changes, and
  Verus proves it. Functions whose names begin with `law_` state what holds of
  several of them together.
- `tests/` runs the library on concrete values, together with the crates that it
  calls.
- `app/` is ordinary Rust around the library: the terminal, the files, the
  connection to the supervisor and the clock.

## The library by module

| module | what it is about |
| --- | --- |
| `text`, `lists`, `paths` | texts, ordered lists of entries, file paths |
| `daemon`, `idmap`, `ports`, `stats` | identifiers, states, ports and resource use of daemons |
| `config` | sections of project files, and requests to run a daemon |
| `batch`, `client`, `start`, `stop`, `jobs` | what the supervisor is asked to start and stop, level by level, and what is shown of it |
| `form`, `editor`, `configure` | editing a section in a form and saving it |
| `fuzzy`, `order`, `app`, `network`, `tui` | the terminal dashboard and its loop |
| `cli` | the commands `restart`, `stop` and `run` |
| `logger` | what is logged, where, and how it looks |
| `web` | the dashboard's web page |

Calls into other crates (`indexmap`, `fuzzy-matcher`, `shell-words`, `console`,
`log`) go through small functions whose contracts are taken on trust; a comment
above each says what is claimed of the crate.
