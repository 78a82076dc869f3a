# Serverbox

A desktop control panel for Linux servers that are reached over SSH. The crate is split in
two.

- `src/` holds the rules: what is asked of a server, how its answers are read, how sessions,
  transfers, tunnels and the credential vault behave. Every function states in its contract
  what it returns or changes, and Verus proves it. Properties that hold of several functions
  together stand beside them as public proof functions.
- `app/` holds the rest: sockets, SSH channels, files, the database, threads, percentages
  and the desktop window. It performs what the rules decide and hands back what happened.
- `tests/` runs the rules on concrete values.

The parts of `src/`:

| Modules | Subject |
| --- | --- |
| `text`, `numbers`, `utf8`, `sorting`, `paths`, `paging`, `sections`, `registry` | text, numbers, orders and collections |
| `json`, `encoding`, `identifiers` | documents, encodings and identifiers |
| `models` | what is shown and stored |
| `ssh`, `exec`, `privilege`, `stream` | commands and their output, sudo, channels |
| `host_keys`, `connections`, `operations` | known hosts, cached connections, cancellation |
| `vault`, `credentials`, `wiping` | the encrypted file of secrets |
| `storage`, `profiles`, `ssh_config` | servers, saved commands and tunnels |
| `terminal`, `log_stream`, `tunnels` | sessions that last |
| `capabilities`, `disk`, `providers`, `tier3` | the pages on a server |
| `app_error`, `window` | errors and the window |
