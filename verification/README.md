# demoparser

Building blocks of a Counter-Strike 2 demo file parser, written in Verus:
each function states what it computes in `requires` / `ensures`, and Verus
proves it.

## Layout

- `src/` — the verified library.
  - `read_bytes`, `read_bits`: varints, zig-zag numbers, bit-level reading
    of packet data (over `bitter`).
  - `frameparser`, `demo_cmd`, `decompress`: frames of a demo file, finding
    frame boundaries, splitting a file into ranges that can be parsed
    separately, and Snappy-compressed payloads (over `snap`).
  - `huffman`, `path_ops`: the Huffman table of field-path operations and
    the operations themselves.
  - `sendtables`, `field_types`, `field_model`: serializers and their
    field trees, field type names, decoders and property ids of fields.
  - `entities`: entities and their property values (in `ahash` maps),
    the entry headers of packet-entities messages and deletions, players
    and teams kept up to date from controller and team entities, and the
    property lookups of players, teams, weapons, grenades and the bomb.
  - `game_events`, `parse_demo`: purchases (and their events), sales and
    round changes reconstructed from property changes.
  - `demo_searcher`: the file header and the walk over the front of a demo
    to its metadata messages and full packets.
  - `keyvalues`: the game's key-values text format (translations, items).
  - `prop_controller`: property ids and the infos of custom properties.
  - `parser_settings`, `collect_data`, `variants`, `voice_data`, `strings`, `error`: settings, property ids,
    small helpers and the error type.
- `tests/` — tests of the library on concrete inputs.
- `app/` — a command-line front end: memory-maps a demo, checks its header,
  splits it into ranges on a thread pool, and reads key-values files.
