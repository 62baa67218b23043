# gitflux

Gitflux replays the history of a Git repository as a scene and renders it,
either to a video (through FFmpeg) or to an interactive preview window.

The crate is a Verus project. `src/` is the verified library:

- `domain.rs`: Repository Replay, Commit Events, File Changes, Contributors.
- `config.rs`, `config_text.rs`: the Render Configuration and the reader of
  its TOML text, with exact diagnostics for every refused document.
- `scene.rs`, `graph.rs`: the Repository Graph scene built from a replay:
  rows of contributors, directories, files and Visual Summaries, activities
  and their timing, and the laws the scene keeps.
- `render.rs`: render plans, frame numbering and frame-sequence paths.
- `export.rs`: output presets, the FFmpeg invocation and what each FFmpeg
  outcome means for an export.
- `ingestion.rs`: commit records read from Git turned into a replay.
- `preview.rs`: preview plans, playback stepping and config hot reload.
- `diagnostics.rs`, `cli.rs`: the command line, its reports and messages.
- `text.rs`, `paths.rs`, `digest.rs`: text, path and SHA-256 helpers.

`app/` is the program around it: argument and file I/O, git2 reading, wgpu
rendering, the minifb window, FFmpeg processes and JSON output.
