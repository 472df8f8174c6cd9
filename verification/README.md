# voidmc

A verified core for a Minecraft server and its kart-racing demo, written in
Verus. Every function under `src/` states what it does in `requires` /
`ensures` and is proved to do it.

## Layout

- `src/decoder.rs`, `src/error.rs`: the `Encode` / `Decode` traits, the
  bounded `Decoder` and its budgets (bytes, elements, memory, nesting), and
  the decode errors with their messages.
- `src/primitives/`: the wire codecs — big-endian integers, booleans,
  variable-length integers, length-prefixed and fixed-length vectors,
  remaining bytes, UUIDs, quantised low-precision vectors and network NBT,
  which is scanned within its budgets before it is handed to the `ussr-nbt`
  parser. The integer, boolean, variable-length, vector, byte, UUID and
  quantised-vector codecs come with a proof that decoding what it encodes
  gives the value back; for NBT the proof covers the scan and the framing,
  while the tree itself is read and written by `ussr-nbt`.
- `src/wire.rs`, `src/text.rs`: the mathematics of byte and digit strings
  that the contracts are written in.
- `src/attrs.rs`, `src/derive.rs`: what the codec derive reads from
  `#[codec(...)]` and `#[repr(...)]` attributes and field types, and the
  plan of codec calls it makes for a struct or enum, or why it refuses one.
- `src/data.rs`: lookups in the versioned game data tables, a check that a
  protocol table lists its names in id order, and the parse of a registry
  entry's stored NBT.
- `src/kart.rs`, `src/items.rs`, `src/race.rs`, `src/hud.rs`,
  `src/records.rs`, `src/sidebar.rs`, `src/chat.rs`, `src/audio.rs`,
  `src/travel.rs`, `src/terrain.rs`, `src/seed.rs`: the race demo's power-up
  table, kart input and effect timers, pickups, what a used power-up sets
  off (traps, a storm over each rival), storms, trails, round clock, grid,
  the race tick (gates, laps, finish times, end of the round), display
  keyframes, lap times, HUD line, score board, sidebar contents and
  updates, chat colours and HUD flashes, sound cues, transfers, column hash
  and world seed.
- `src/environment.rs`, `src/sign.rs`, `src/commands.rs`, `src/teams.rs`,
  `src/settings.rs`: the example server's commands — `/time` arguments,
  sign text wrapping, what `/title`, `/toast`, `/effect`, `/circle`,
  `/border`, `/weather`, `/bossbar`, `/tablist`, `/nick`, `/menu` and
  `/team` decide and answer — and settings read from the environment.
- `app/`: what stays outside the proofs — floating-point codecs, terrain
  and HUD times, the random seed draw, environment reads, a process-wide
  cache of parsed registry entries, and `std::error::Error` for decode
  errors.
- `tests/`: executable tests of the library.
