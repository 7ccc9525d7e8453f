# NeuroClip

NeuroClip turns long videos (matches, streams, talks) into short highlight clips with
commentary: it finds energy bursts in the audio, snaps them to shot cuts, keeps the best
non-overlapping 15–45 s segments, writes paced commentary with a golden three-second hook,
speaks it, and renders vertical or landscape clips with ducked audio and burnt-in
subtitles. It also keeps a library of the videos found on the machine.

## Layout

- `src/` — the library, verified with Verus. The product's rules live here with
  contracts: path and file-name rules, the scan filter (directory pruning, video
  whitelist, MPEG-TS content check), scan batching, the library query plans and clean-up,
  shot snapping, highlight selection and ordering, commentary composition and fitting,
  SRT/ASS documents, FFmpeg/ffprobe/TTS argument lists, hardware-encoder choice, update
  checks and installer launches, and the folder watcher's bookkeeping.
  - `text` — string helpers and their specifications.
  - `ffmpeg`, `highlight`, `script`, `tts` — the clipping pipeline.
  - `scanner`, `db` — the media library.
  - `automation`, `commands` — the folder watcher and the desktop commands' logic.
- `app/` — the command-line program and everything that touches processes, files,
  SQLite (the fixed insert, statistics and delete statements and their execution), the
  file-system watcher or floating point (signal processing, scores, percentages).
- `tests/` — tests of the library.

Laws of the library are public proof functions whose names start with `law_`.
