# MinedMap core

The logic of the MinedMap map renderer for Minecraft worlds, verified with Verus.

- `src/` is the library. Every function states in its contract what it returns or changes,
  and Verus proves it. Among its modules:
  - `bedrock` reads the little-endian NBT data, block storage, players and database keys of
    Bedrock Edition worlds
  - `layer` finds the top layer and the cave layer of a chunk; `flat`, `texture`, `pixels` and
    `heightmap` turn layers into images
  - `overlay`, `poi`, `mob`, `player` and `world_stats` collect the data that is emitted for
    viewers and other tools
  - `region_cache` and `fs` decide which regions are read again and how files are replaced
  - `common`, `args`, `patterns` and `generate` hold the configuration and plan the work
  - `java_random` finds slime chunks
- `app/` is the program around the library: arguments, files, databases, JSON output, and
  whatever computes with floating point numbers.
- `tests/` runs the library on concrete data.

What the library has from other crates is declared next to where it is used, with the facts
that the proofs rest on: see `bedrock::nbt`, `compression`, `indexed`, `java_nbt`, `json`,
`patterns`, `pixels`, `player` and `texture`.
