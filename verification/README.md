# transcribe-rs

Push-to-talk dictation for Wayland desktops: record while a hotkey is held, transcribe,
optionally post-process the text with an LLM prompt (with conversation history and tool
calls), then paste it into the active window.

- `src/` is the library, verified with Verus: the hotkey state machine, the circular audio
  buffer and recording sessions, the file watcher's debouncing, the tool-calling loop and
  message building of the LLM client, the conversation history, transcription corrections,
  timing estimates, configuration defaults, and the text handling they rely on. Each public
  function states its result in its contract, except what comes from the clock or sits
  behind a lock (the current time, the contents of the shared audio buffer); the `law_*`
  proof functions state properties that relate several operations.
- `tests/` exercises the library on concrete values.
- `app/` is the program around it: command-line handling, the recording and watch daemons,
  the clipboard, notifications, HTTP calls and files.
