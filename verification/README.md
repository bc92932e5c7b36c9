# SpeakType Cloud

A push-to-talk speech-to-text tool: it records while a global hotkey is held,
sends the audio to a cloud speech provider (OpenAI, xAI or OpenRouter, in
batch or realtime mode), post-processes the transcript and pastes it into the
window that had the focus.

## Layout

- `src/` — the library, verified with Verus: settings and their validation,
  hotkey parsing and the keyboard state, transcript post-processing, the
  provider request and error rules, the realtime protocol parsers, the local
  voice activity detector, the realtime worker's decisions, retries, history
  bookkeeping, the update supply-chain checks, secret handling, the paste
  sequence, and the state of the main window (`session`).
- `tests/` — tests of the library.
- `app/` — the program around the library: files, environment, network,
  WebSocket sessions, threads and audio conversion. The window, tray,
  keyboard hook, clipboard and Windows API parts are not built here; their
  decisions are in `src/` (`session`, `shell`, `hotkey`, `injector`).
