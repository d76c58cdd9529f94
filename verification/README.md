# gcli

A terminal client for Google Sheets: pick a saved spreadsheet, log in with
OAuth 2.0 in the browser, and edit cells from a command prompt (`l3 sB`,
`ed <value>`, `add <a;b;c>`, `cz`/`csz` for undo and redo, ...).

The logic is a library verified with Verus; the program around it is
ordinary Rust.

## Layout

- `src/` — the verified library.
  - `text.rs`: characters, whitespace splitting, trimming, decimal numbers.
  - `commands.rs`: the command language of the prompt, read word by word.
  - `address.rs`: column letters, `A1` cell addresses, spreadsheet ids in URLs.
  - `json.rs`: JSON values as the library reads and builds them.
  - `sheets.rs`: the Sheets API v4 requests (URL, header, body) and what is
    read from the replies.
  - `app.rs`: the open spreadsheet: cached values, selection, dropdown
    options, undo/redo history.
  - `prompt.rs`: what one command does to that state, and what is left to
    send, ask or show.
  - `table.rs`: the page of the table that is drawn.
  - `menu.rs`: the menu of saved spreadsheets.
  - `config.rs`: saved spreadsheets, named lists and their cell assignments.
  - `auth.rs`: the access token.
- `tests/` — tests of the library on concrete values.
- `app/` — the program: terminal I/O, HTTP, OAuth login, the configuration
  file, and the loops that run the library's decisions.

The program reads `client_secret.json` (an OAuth client of type "Desktop
app") and keeps its configuration in `config.json`, both in the working
directory.
