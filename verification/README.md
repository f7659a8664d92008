# pko_tools

Asset tools for the PKO game client: binary table parsers, the forge and
stone-combination rules, coordinate remapping between the client's
left-handed Z-up frame and glTF, scene-model and character-mesh export
planning, DDS texture decoding and map placement queries.

## Layout

- `src/` — the library, written in Verus; every function carries a contract
  and is verified.
  - `bytes`, `text` — little-endian readers, decimal formatting, string helpers.
  - `refine` — `ItemRefineEffectInfo.bin`, `ItemRefineInfo.bin`, `StoneInfo.bin`
    and the stone combination category.
  - `forge` — category availability, forge effect preview and gem traces.
  - `item` — export naming, forge glow opacity, case-insensitive file matching.
  - `shadeinfo` — the shade table.
  - `coord_transform` — axis remapping and triangle winding.
  - `scene_model` — material naming, primitive planning, index encoding,
    joint hierarchy, texture references, data URIs and buffer packing for
    building export.
  - `building` — the material, mesh, node, skin and bone-channel layout of an
    exported building.
  - `gltf_builder` — buffer, view and accessor tables of an exported document.
  - `texture` — DDS decoding with DXT1 one-bit alpha, general decoding and
    PNG data URIs through the `image` crate.
  - `character`, `mesh` — character metadata, file names and glTF export
    layout, imported mesh layout, merging of imported primitives and the
    joint/bone-table mapping.
  - `map` — placement records, counting, search, paging and the building list.
- `tests/` — tests of the library.
- `app/` — the application side: file access, floating-point geometry, glTF
  document traversal, and serialisable records.
