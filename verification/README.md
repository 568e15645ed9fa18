# mpv-subtitleminer

A bridge between mpv's JSON IPC and a web front end for language learning:
subtitles that mpv shows are streamed to WebSocket clients, which can ask for
a still image or an audio clip of any subtitle seen so far.

## Layout

- `src/` — the verified library (Verus):
  - `text.rs`: Unicode whitespace, trimming, comma-separated lists
    (`parse_list`), decimal rendering;
  - `json.rs`: the calls into `serde_json`;
  - `protocol.rs`: the IPC commands, reading mpv's lines, the process-id check;
  - `session.rs`: the session state machine that decides what to do with each
    line from mpv, with its invariant and laws;
  - `store.rs`: the subtitle store and the planning of media requests;
  - `filter.rs`: ASS Style/Name block- and allowlists;
  - `ass.rs`: reading the Style and Name of the ASS events behind a
    subtitle, and whether the filter keeps them.
- `app/` — the program around it: argument parsing, the mpv socket, the
  WebSocket server, ffmpeg, and the floating-point subtitle times.
- `tests/` — tests of the library.
