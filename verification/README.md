# operation_logger

Records what a user does in one chosen Windows application: keyboard and
mouse input, game-controller reports, and a 640x360 video of the window,
into a per-session directory of CSV files, `capture.mp4` and
`session_metadata.json`.

The crate is written in Verus. `src/` is the verified library: every rule
that decides what is logged and how it is written is a function with a
`requires`/`ensures` contract, and the properties that span calls are
stated and proved as `law_*` proof functions.

- `applications`, `gui::app_model` — which windows are offered, their
  labels, and the selection and session state behind the window.
- `logger::keyboard` — hook message decoding, key names, auto-repeat
  suppression, and `keyboard_input.csv` rows.
- `logger::mouse` — hook message decoding, target filtering, move
  de-duplication, and the mouse CSV rows.
- `logger::controller` — raw input records, HID report decoding, dead
  zones and quantization, per-device button/analog diffs, device ids.
- `capture` — letterboxed 640x360 layout, CPU scaling, frame decimation,
  capture-clock to UTC mapping and calendar formatting, metadata rows.
- `local_participant_config`, `session_metadata`, `log_directory`,
  `timestamp`, `uuid_text`, `release_package` — configuration checks,
  metadata, directory and artifact naming, text formats.

`app/` is the Windows program around the library: hooks, Raw Input,
Windows.Graphics.Capture, Media Foundation, files and JSON. It performs the
steps the library decides on (which events to log, which frames to keep,
whether to reuse the configuration, what metadata to write at the start of
a session). Two small loops there are tied to the file system and the
window system and are not verified: finding a free name for the backup of
an invalid configuration, and the message loops of the hook threads.
The graphical front end is present only as its state handling
(`app/gui.rs`); its window definition is not part of this crate.
