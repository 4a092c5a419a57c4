# SolYan AirPlay 2

A Windows sender that streams system audio (WASAPI loopback) to AirPlay 2
receivers such as HomePods, as a command-line tool and a desktop window.

## Layout

- `src/` — the verified library (Verus):
  - `engine/` — route selection, the persistent PCM ring and the immutable
    RTP timeline, with their laws;
  - `airplay/` — receiver profiles, discovery results and DNS-SD names,
    HomePod stereo-pair detection, target selection, the live producer state
    machine (priming, grace window, paced silence), RTP heartbeat and feedback
    health, and the shared stream control;
  - `capture.rs` — native PCM conversion, format checks and block framing;
  - `gui.rs` — front-end decisions: receiver order, selection, start rules and
    the diagnostics log;
  - `cli.rs`, `assets.rs`, `text.rs` — command-line options, embedded assets
    and verified text helpers.
- `app/` — the program around it: WASAPI capture, the AirPlay client calls,
  the live stream loop, the CLI and the egui window. Run it with `--gui` for
  the window, or with `--help` for the command-line options.
- `tests/` — tests of the library.
