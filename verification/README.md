# ripgrep_web

A web service that searches the log files below one directory. The engine is that of
ripgrep (`grep-regex`, `grep-searcher`, `ignore`), used in the process: no shell, no `rg`
binary.

The crate has two parts.

- `src/` is the library, verified with Verus: what a request asks for and whether it is
  served, which files are looked into, what is found in them and how far the search goes,
  what the client is told at the end, and what the service runs with.
- `app/` is the service around it: the HTTP server, the walk through the directory tree,
  reading files, the clock of a request, the configuration file.

## The library

| Module | What it holds |
| --- | --- |
| `query` | a request: keyword, path, limit, time range; whether it is served |
| `path` | paths as bytes: their parts, whether one lies within another, the extension |
| `text` | white space and line ends |
| `time` | time ranges such as `2h` or `1h 30min`, and the time they reach back to |
| `matcher` | compiled patterns, and the search of bytes in memory |
| `decode` | what compressed files and archive members hold |
| `search` | `LogSearch`, the search through many files, one step at a time |
| `model` | the same as a mathematical state machine; the contracts of `search` speak of it |
| `course` | what holds of every course of a search |
| `found`, `error`, `reply` | results, errors, and the last event of an answer |
| `settings` | command line, configuration file, environment and defaults |

`LogSearch` does no input or output. Its caller walks the tree, asks `visit` what to do
with an entry, reads the files that are wanted and hands them to `open`, and then follows
`advance`: it hands lines to the client and reports with `answer` whether they were taken.
A file is read into memory as a whole and compressed data is decoded there, up to 256 MiB of
each file or archive member; nothing is written to disk. Binary files, and binary data in
compressed ones, are passed over.

Among what is proved, in `course`, `query`, `path` and `time`:

- the limit holds for a search as a whole, and `truncated` is said exactly when it was
  reached;
- a client that takes what it is offered gets the matching lines of all wanted files, in
  order, as far as the limit goes, whatever fails on the way;
- of binary files nothing is offered;
- once a search is cancelled no line is offered any more;
- no search begins outside the base directory;
- only files changed within the time range are searched.

What the outside crates do is not proved. Each call into one stands in a small function
marked `external_body`, whose comment says what is claimed of it.

## The service

| Variable | Field of the configuration file | Default |
| --- | --- | --- |
| `LOG_BASE_DIR` | `base_dir` | `/var/log` |
| `LISTEN_ADDR` | `listen_addr` | `0.0.0.0:5000` |
| `MAX_CONCURRENT_SEARCHES` | `max_concurrent_searches` | `4` |
| `RUST_LOG` | `rust_log` | `ripgrep_web=info,tower_http=info` |

`--config PATH` or `--config=PATH` names a configuration file in JSON. What it says comes
before the environment, and the environment before the defaults; for the log filter the
environment comes first.

```text
GET /api/search?keyword=error&path=nginx&changed_within=2h&regex=false&case_sensitive=false&search_zip=true&limit=1000
```

The answer is a stream of events: `match` for each result, then `done` with the totals or
`error` with a message.
