# esMail

The logic of a desktop mail client, stated and proved with Verus.

`src/` is the library. Nothing in it touches the network, the disk or the
screen: it is told what happened there and says what to do next.

- `text`, `html`, `files`: text, text in pages, file names.
- `imap`, `mailboxes`: what a server answers, and the folder tree.
- `actor`, `worker`, `idle_watch`, `auth`, `events`: the connections of an
  account, how they are retried, and which event answers which command.
- `db`: the cache as plans of SQL statements; `cache_laws` gives the statements
  a meaning and says what reading back gives.
- `compose`, `compose_window`: messages being written.
- `state`, `app` and the other `app_*` modules: the program itself, as
  transitions of one state. `app_invariant`, `app_laws` and `outbox_laws` say
  what holds of it at all times.
- `selection`, `search_query`, `folders`, `form`, `startup`, `theme`, `tray`, `shell`,
  `ipc`, `webview`: the parts around it.

Each type that the contracts speak of has a ghost model and a view; each function
says in its `ensures` which model it leads to. What relates several functions is a
public proof function whose name begins with `law_`.

`app/` is the program around the library: windows, sockets, files and the
database. `tests/` runs the library, and runs its SQL on a real database.
