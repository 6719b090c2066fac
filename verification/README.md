# QSL desktop

The logic of the QSL desktop mail client, written in Rust and verified with
[Verus](https://github.com/verus-lang/verus).

- `src/` is the library. Every function states in its contract what it returns
  or changes, and Verus proves it. Moments are seconds since the Unix epoch,
  texts are sequences of characters. The properties that span several functions
  are proof functions whose names start with `law_`.
- `tests/` runs the library on concrete values, with the outside crates linked.
- `app/` is the program around the library: a host that reads and writes JSON
  lines. On the other side of the pipe are the window shell, which draws what it
  is handed, and the services for storage, mail servers, signing in and
  rendering.

## Modules

| Area | Modules |
| --- | --- |
| Data | `model`, `inputs`, `table` |
| Texts, numbers, dates | `text`, `number`, `calendar`, `display`, `order` |
| Main window | `shell`, `keyboard`, `palette`, `sidebar`, `message_list`, `threading`, `reader`, `sync_status`, `surface`, `windows`, `tray` |
| Writing mail | `compose`, `addresses`, `autocomplete`, `reply`, `drafts`, `picker`, `mailto`, `urls` |
| Mail commands | `messages`, `changes`, `attachments`, `outbox`, `accounts` |
| Sync | `sync_engine`, `watcher`, `backend`, `history_sync` |
| Other windows | `settings`, `oauth_add`, `host_log` |

## What is trusted

Calls into outside crates stand behind small wrappers, each of which says in its
doc comment which function it calls and what is claimed of it: `chrono` (dates),
`url` (links), `base64`, `serde_json` (one string), `mime_guess` (media types),
`rand` (one number), `str::to_lowercase` and `String::from_utf8_lossy`.
