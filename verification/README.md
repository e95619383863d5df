# wolfcut

The verified core of the WolfCut video editor: the document model and its
tolerant reader, the flattening of a timeline for export, transition and
effect planning, FFmpeg's argument lists, the loopback media server's
request handling and access rules, and the project cache's keys and checks.
Every function in `src/` carries a contract that Verus proves.

- `src/` - the library, verified with Verus.
  - `project`, `model`, `blend` - the edit: media, timelines, lanes, clips.
  - `document` - reading `wolfcut.json`: what loads, what is dropped, what
    defaults; and the law that whatever loads can be worked on.
  - `writer` - writing it, and the laws that reading gives back what was
    written and that a project that was opened saves and reopens unchanged.
  - `flatten`, `export`, `transitions`, `effects`, `ffmpeg` - from a timeline
    to what FFmpeg is asked to do.
  - `url`, `http`, `server`, `media`, `cache`, `scan`, `text` - the media
    server and the desktop host's checks.
  - `session` - what opening and saving change in a session's settings.
- `tests/` - tests run against the compiled library.
- `app/` - the desktop host around the library: files, sockets, child
  processes, JSON, and the floating-point arithmetic (seconds, blend curves,
  effect ramps) that Verus does not reason about.
