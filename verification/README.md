# nes_ui

The decision-making core of an NES emulator front end, written in Verus and
proved against its contracts:

- `archive`: the achievement unlock archive (newest first, one entry per
  achievement, bounded size).
- `achievements`, `session`: RetroAchievements rows, warning detection, the
  unlock baseline and what each client event means for the front end.
- `achievements_ui`: what the achievements window lists (warnings apart,
  unlocked first, counts and points) and the archive panel.
- `artwork`: game artwork addresses, the steps of an artwork lookup, artwork,
  badge and cover decoding (via `image`) and the bookkeeping of pending artwork
  lookups.
- `library`: the library page's search and sort.
- `hex_view`: the memory viewer's address jumps, paging, cheat cells and text
  column.
- `rewind`: compressed rewind snapshots (LZ4 via `lz4_flex`), the bounded
  rewind history and the held-rewind controller.
- `input`, `gamepad`: controller masks, opposite-direction filtering and the
  texts of bindings and gamepad events.
- `emulation`, `cheats`: region and loader decisions for ROM files, byte-count
  texts, memory-space names and cheat activity rows.
- `text`, `channels`: string helpers and the channel operations the workers use.

`app/` holds what runs around the library: archive files (serde), worker
threads, HTTP requests, file reads, the CRT filter and audio shaping (floating
point).
