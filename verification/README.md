# tavern_backend

The decisions of a chat server for role-play characters: what a request is answered with, where
cards, chats, pictures and backups are stored, what is asked of other services, and what is made
of their answers. Every function in `src/` states what it returns for every input, or, where
chance or the machine's floating point decides, what holds of every outcome, and is proved with
Verus to do so.

- `src/` holds the library. `json`, `text`, `numbers`, `paths` and `web` are the values that the
  rest is written with; `characters` is about cards and the archives that they come in; the other
  modules are named after what the server offers. `outside` holds the calls into other crates
  with what is relied on of each.
- Laws that span several functions are public proof functions beside the functions that they
  speak of.
- `tests/` runs the library with the other crates linked.
- `app/` is the HTTP server around the library: it reads and writes files, sends requests and
  parses JSON, and hands the library plain values.
