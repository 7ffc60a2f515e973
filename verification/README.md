# fin

Reports the work you finished, from GitHub and Jira: merged pull requests,
closed issues and resolved Jira issues, over a day, a week, a month or an
explicit window, as a styled terminal report, a markdown table or JSON.

The library under `src/` is verified with Verus: each function's contract
states what it returns, except where the answer rests on the machine's
time-zone database or on what the `gh` CLI says, and there it states what
holds of every answer. The laws the report rests on are proved as lemmas.

- `period`: reporting windows, from a period name and the current moment.
- `config`: the configuration file, and the precedence of flags over the
  file over the built-in defaults.
- `item`, `source`: finished work, sorted and deduplicated.
- `cache`: cache keys, and how long an entry may be served.
- `sources::github`, `sources::jira`: the queries each service is asked, the
  pages it answers with, retries and credentials.
- `render`: the terminal report, the markdown table and the JSON output;
  `render::shown` proves that styling never changes what the report shows.
- `time`, `json`, `toml_doc`, `text`: plain values for what `jiff`,
  `serde_json` and `toml` compute, and text helpers.

`app/` is the program around the library: the command line, the clock, the
environment, files, HTTP and concurrency.
