# cdda_render

The presentation and replay logic of a Cataclysm: DDA client, written in
Verus and proved against its contracts.

- `src/` is the verified library: the session log and its byte format,
  replay stepping, gameplay-state digests, the tile registry and its JSON
  manifests, and the list, filter, navigation and text models behind the
  menu screens (registry viewer, item spawner, crafting, inventory,
  character sheet, settings, overmap viewer, loading and world view).
  Laws that relate several operations are public proof functions named
  `lemma_*` beside the functions they speak of.
- `tests/` runs the library on concrete values.
- `app/` holds what stays outside the proofs: file I/O for session logs
  and tile sheets, and the floating-point geometry of the UI (scroll
  windows, region layout, sprite offsets, temperature display).

Outside crates: `serde_json` parses and writes JSON; its calls stand
behind the trusted items in `src/json.rs`. The standard library's string
conversions stand behind those in `src/text.rs` and `src/session_log.rs`.
The gameplay-state digest feeds little-endian bytes through
`DefaultHasher::write`, whose contract comes with vstd.
