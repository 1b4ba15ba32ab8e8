# hakuren_bot

A bot that watches note.com creators and YouTube channels and announces their
new posts to Discord webhooks. The first poll of a creator only takes in its
existing posts; later polls announce what was not handled before.

- `src/` is the verified library (Verus): configuration checks, channel-id
  recognition and extraction, feed-to-item conversion, publication-order
  sorting, embed and payload construction, retry decisions, the remembered
  state and the per-poll decision of what to announce.
- `app/` is the program around it: HTTP (reqwest), TOML/JSON/XML decoding
  (toml, serde_json, quick-xml), the state file, the polling loop (tokio) and
  logging (tracing).
- `tests/` runs the library on concrete values.
