# async_jira_cli

An in-memory database of epics and the stories they hold, served over TCP to any number of
clients, with a page-based command-line client. The library is written in Verus: each
function carries a contract, and Verus proves that the code meets it.

## Layout

- `src/` — the verified library.
  - `utils.rs` — little-endian integers and byte helpers.
  - `text.rs` — decimal numbers, trimming, and the conversions between strings, characters
    and UTF-8.
  - `models.rs` — statuses, stories, epics and the database state; the bytes of an epic
    file and the lines of the database file, and reading them back.
  - `response.rs` — the responses of the server: an 18-byte tag and the data after it.
  - `events.rs` — the requests of a client: a 13-byte tag, and for the requests that add
    an epic or a story, the name and the description after it.
  - `server.rs` — the broker's decisions: for each event, the new state, the response and
    what is to be written to disk.
  - `interface/` — the client's side: frames and pages read from responses, the dialogs
    that build requests from what the user enters, and the stack of pages.
- `app/` — the two programs around the library: the server's tasks (listening,
  connections, the broker loop, the files) and the client's loop (stdin, stdout, the
  connection). Run `server -d <dir> -f <file> -e <epic dir> -c <channel size> -a <address>
  -p <port>` or `client <address> <port>`.
- `tests/` — tests of the library on concrete values.
