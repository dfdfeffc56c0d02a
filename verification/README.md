# meet123

The decision logic of the Meet-123 relay helper, verified with Verus.

- `src/` — the library: reading `pactl` listings (`json`, `audio`), the audio
  routing controller (`pulse`), browser choice (`browser`), desktop tips
  (`desktop`), PCM framing (`pcm`) and character helpers (`text`).
  The controller never runs a command itself: each operation takes what
  `pactl` reported and returns the commands to run next, as plain values.
- `app/` — the program around it: runs `pactl` and `parec`, serves the page
  and the audio WebSocket (axum), shows the tray icon (ksni), opens the
  browser.
- `tests/` — tests of the library on concrete values.
