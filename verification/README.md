# pwsh-history-server

Centralized PowerShell history for `pwsh` sessions that share a home directory.

- `src/` is the library: the rules of the server, verified with Verus.
  - `text`, `line_facts`: white space, trimming, lines.
  - `token`: access tokens.
  - `like`: prefix search with SQL's `LIKE`.
  - `store`: the statements that the database runs.
  - `config`: where the settings come from.
  - `profile`, `profile_laws`: the managed block in a PowerShell profile.
  - `install`: the setup of PowerShell.
  - `api`: what the HTTP interface accepts and answers.
- `app/` is the program around it: start-up, files, network and database.
- `tests/` runs the library.

The settings come from the command line: `--db`, `--port`, `--token` and
`--install`. Without `--token` the server takes the token that the PowerShell
profile sets, and generates one only if it sets none.

The program expects the client script `pwsh-history.ps1` next to its executable.
