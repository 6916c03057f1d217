# garlemald

The wire formats and combat-state logic of a game map server, written in
Verus and proved against their contracts.

- `src/wire.rs`: little-endian fields in byte buffers (model and `byteorder` calls).
- `src/subpacket.rs`: subpacket framing; parse, serialise, stream stamping, and the
  round-trip laws between them.
- `src/actor_battle.rs`, `src/opcodes.rs`: the battle packet builders, each payload
  pinned byte for byte.
- `src/battle_npc.rs`, `src/battle.rs`, `src/npc.rs`, `src/modifier.rs`,
  `src/mob_modifier.rs`, `src/database.rs`: the battle NPC and the state it carries.
- `src/time.rs`: Unix time for game-message timestamps.
- `app/`: the process-wide monotonic clock of the battle engine.
