# ovd_transcribe

The decision logic of a video transcription and translation pipeline, written in Verus
and proved against its contracts: audio download arguments, whisper and ffmpeg argument
lists and outcome classification, English paragraphing, translation block planning,
response validation and numeric fidelity, retry policy, resume and skip decisions,
Chinese transcript assembly, the per-video state machine (resume, skip, cancel, fail),
batch summaries, secret handling and the file log's line
format and rotation plan.

Layout:

- `src/` — the verified library. Each module states its model in spec functions and
  proves the executable code against it; `law_*` proof functions state properties that
  span several calls.
- `tests/` — example-based tests of the library, run against the real outside crates.
- `app/` — the unverified shell around the library: child processes, files, HTTP, the
  `tracing` layer, and the floating-point timeline code (chunk planning, segment merge,
  timestamp parsing). Every decision it needs is a call into the library.
