# minlabel

The verified core of a collaborative audio labelling client.

- `src/transcribe.rs`: dictionary loading and Chinese transcription (longest
  phrase match, single-character readings, traditional-to-simplified
  conversion, tone-mark removal).
- `src/kana.rs`: hiragana/katakana to romaji.
- `src/text.rs`: character-level text operations (lines, split, trim, words,
  join, ordering) with their specifications.
- `src/net.rs`: the room protocol's messages, URL construction with
  percent-encoding, and how connection events and HTTP replies are judged.
- `src/browser.rs`: the state of the file browser window.
- `app/`: the egui window, file dialogs, the WebSocket task and the HTTP
  calls. They use the library for URLs, connection decisions and reply
  judging; reading the JSON shape of replies (the `id` field, and a missing or
  non-array `files` field taken as no files) is done there, as part of
  reading the reply.
