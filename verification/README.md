# tonemate

tonemate is a menu-bar translator: a hotkey summons a bar, the typed text goes
to a language model, and three to five renderings of it, each in a different
tone, stream back as labelled rows. It can use Amazon Bedrock, Kimi, DeepSeek,
Qwen, or a small model run locally under llama.cpp.

## Layout

- `src/` is the library, written in Verus and verified: everything the app
  decides.
  - `tones` turns the model's streamed `label<TAB>translation` lines into row
    updates.
  - `sse` reads an OpenAI-compatible server-sent-event stream out of raw
    chunks; `json` holds the JSON values and the frame shape it reads.
  - `prompts`, `scenes` and `words` build the prompts, classify a text into a
    scene with its three tones, and find the words a rendering copied from its
    source instead of translating.
  - `retry` is the per-tone re-roll of the local model, as a state machine the
    caller drives.
  - `provider`, `transport`, `local` and `settings` choose the service, shape
    each request, read each reply and failure, and hold what the user set.
  - `text` and `decimal` are the character and number helpers the rest uses.
- `tests/` exercises the library from outside.
- `app/` is the desktop app around it (Tauri windows, the tray, HTTP and the
  AWS SDK, files, the llama-server child process), which hands the library
  plain values and acts on what it answers.

Each public function states what it returns in its contract, and the
properties that span calls — that where a stream is split cannot change what is
shown, that a row's label is fixed once its tab arrives, that a tone is settled
within three requests — are proof functions next to the code they are about.
