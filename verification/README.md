# colmsg (verified core)

`colmsg` saves messages from the Sakurazaka46, Hinatazaka46, Nogizaka46,
Asuka Saito, Mai Shiraishi and yodel message apps. This crate holds the part of
its command-line client that decides things, proved with Verus:

- `src/args.rs`: the parsed command line as plain values (`Matches`).
- `src/config_file.rs`: the default arguments of the configuration file
  (blank lines and `#` comments give none; other lines give their words).
- `src/app.rs`: the download configuration of each app (`App::*_config`):
  member names, `--from` time (read with chrono), message kinds, directory and
  the credential to use, with the access token from the environment first.
- `src/web_login.rs`: the web-client login: the `--group` service, Chrome's
  arguments, the polling of Chrome and DevTools, and the `TokenWatcher` that
  finds the bearer token among DevTools network events.
- `src/json.rs`, `src/text.rs`: the JSON values and string operations these use.

`app/` is the program around it: command-line parsing with clap, the
environment, the download directory, Chrome as a process, HTTP with reqwest
and the DevTools WebSocket with tungstenite.
