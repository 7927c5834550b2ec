# i18n-editor

An editor for the translation tables of Jongyeol's mods. It reads the reference texts from the
authors' spreadsheet, lets a translator fill in a table of texts, keeps the tables as JSON files
under `data/`, and exchanges them with a GitHub repository.

## Layout

- `src/` is the library, verified with Verus: the catalogue of mods and the settings (`config`), the
  tables (`table`), the spreadsheet (`sheet`), the session in which texts are typed (`edit`), requests
  and replies (`http`, `github`), the command line (`args`), the steps of the commands (`sync`) and the
  lines of the menu (`menu`). `text`, `json` and `codec` hold what these are made of. `laws` states what
  holds of them together.
- `app/` is the program around it: files, the console, the environment, and sending requests.
- `tests/` runs the library on concrete values.

## Trust

What the library takes from other crates stands behind small functions with contracts that are not
proved: `indexmap` for the tables, `serde_json` for JSON documents, `base64` for the contents of remote
files, and `minreq` for the address of a proxy. Each says in its comment what it claims.

## Commands

`init`, `auth`, `status`, `fetch`, `edit`, `review`, `save`, `push`, `pull`, `data`, `info`; without a
command the editor shows a menu. `--help` lists the options.
