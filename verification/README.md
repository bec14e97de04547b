# gcp_logging

Google Cloud structured logging, verified with Verus.

- `src/formatter`: what the tracing layers write for each event and span
  transition — the severity of each tracing level, the message (with the
  span name for events inside a span and for span start and end), the
  labels (`pid`, `hostname`, then the event's and the spans' fields, later
  ones replacing earlier ones) and the source location.
- `src/viewer`: how `gcp-log` shows log entries — the severity with its
  emoji and color, the message, the labels sorted by key and the source
  location, each entry on a single line — and how it reads its input: one
  simplified entry per line, or the JSON array of full entries gathered line
  by line into records (text that can never become JSON is given back as a
  record at once, so it holds back none of the entries after it).
- `src/text`: trimming, comparison, joining and the stable sort by key that
  the rendering uses.
- `src/external`: the calls into `serde_json`, `chrono`, `colored` and the
  standard library whose contracts are trusted.
- `app/`: the `gcp-log` command line program, the tracing layers
  (`GCPFormattingLayer`, `SpanDataLayer`; `GCPFormattingLayer::without_hostname`
  leaves the `hostname` label out) and the serde forms of the entries.
