# dapctl

Sync a music library to a HiFi digital audio player (DAP): compare a source
tree with the player's storage, plan the copies and deletions, transcode
where the player needs it, verify what was written, audit tags and covers,
and export playlists.

The library (`src/`) holds the logic with its contracts, proved by Verus:

- `diff`: walking results in, a plan out (`compare`, `plan`, path limits);
- `transfer`: what a sync run does with each planned entry, its statistics
  and its manifest;
- `config`, `dap`, `scan`, `ssh`: profiles, DAP profiles, removable drives
  and remote sources;
- `audit`, `cover`, `transcode`, `export`: tag and cover checks, cover art
  decisions, ffmpeg arguments and cache keys, M3U playlists;
- `player`: the queue, lyrics, the library index and the library scan's
  decisions;
- `tui`: the state of the terminal interface and what each key does;
- `text`, `order`, `paths`: strings, orderings, and `camino` paths.

`app/` is the program around it: argument parsing, files, the network,
tags, images and terminal output. `tests/` exercise the library on concrete
values.
