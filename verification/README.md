# discrivener

Transcription of a Discord voice channel: audio from each speaker is
buffered, sent to Whisper at the right moments, and the parts of the
transcripts that are final are published as events.

The library under `src/` holds the decisions and the data structures, each
function with a contract that Verus proves:

- `api` — the events reported to the user, and splitting a transcript in time;
- `audio` — per-user audio buffers (resampling, windows on the RTC clock,
  silence), what is kept of Whisper's output, and the PCM cursor used to
  play speech;
- `model` — call attendance, voice activity, the transcript of the call, and
  audio slices with their request/response bookkeeping;
- `scrivening` and `strategies` — the per-user worker, when to transcribe,
  and what to publish;
- `songbird_client` — who is speaking and who has gone idle;
- `packet_handler` — streams (SSRCs) and their users;
- `time` — spans and wall-clock times as whole nanoseconds.

`app/` runs the tasks and talks to songbird, Whisper, espeak-ng and rubato;
it hands the library plain values and acts on what it returns.
