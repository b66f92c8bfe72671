# endsong

Analysis of Spotify streaming histories (`endsong.json` files), written in
Verus: the library's functions carry contracts that Verus proves.

- `src/` is the verified library. `parse` and `entry` turn raw stream
  records into a dataset sorted by time, with the most common playtime of
  every song as its duration; `capitalization` merges names that differ only
  in case; `gather`, `find`, `rank` and `trace` count, search, rank and
  trace plays; `print`, `help`, `columns`, `display`, `summary`, `pages`,
  `browse`, `command` and `date` compute what the shell and the web pages
  show. Calls into chrono, unicase, unicode-width, textwrap, urlencoding and
  regex stand behind small trusted wrappers whose doc comments say what is
  assumed of them.
- `tests/` runs the library on concrete values.
- `app/` is the interactive shell around the library: reading the JSON
  files, prompting with rustyline, writing plots with plotly and HTML
  summaries.

Timestamps and durations are milliseconds since the Unix epoch.
