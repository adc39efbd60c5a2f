# handy

The verified core of a dictation assistant, written in Verus.

`src/` is the library; every function in it carries a contract that Verus
proves:

- `remote_desktop` — recognizing remote-desktop clients by bundle id.
- `correction` — detecting the single word a user corrected in pasted text,
  and the session that watches the focused field after a paste.
- `keymap` — reverse keyboard maps and the choice of layout per character.
- `typing` — the key events that type text through a remote-desktop client.
- `paste` — the key chords that paste.
- `shared_whisper` — bootstrap bookkeeping, status and `npx` lookup for the
  shared local transcription server.
- `infer` — the line protocol of the stand-alone inference process.
- `text` — character classes and string operations used by the others.

Laws that relate several functions are public proof functions named `law_*`.

`app/` is the unverified host side: OS input through enigo and native macOS
APIs, HTTP checks, running `npx`, reading WAV files and running speech
models. It performs the actions the library plans.
