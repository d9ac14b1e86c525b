# voxel_world

A block world made of 32×32×32 chunks: terrain columns become blocks, trees
grow on grass, the player breaks and places blocks, and every chunk is meshed
into the faces that can be seen. The rules of that world are written in Verus
and proved against their contracts; the engine around them is ordinary Rust.

## Layout

- `src/` — the verified library.
  - `spacial.rs`: integer vectors, sides, axes, axis swaps, the square's
    symmetries and the face quads of a unit cube.
  - `swizzle.rs`: reordering the coordinates of a vector.
  - `block.rs`: block kinds, their occlusion, collision, strength and
    textures.
  - `chunks.rs`: chunk and local coordinates, the index of loaded chunks,
    reading and writing blocks anywhere in the world, which chunks to index
    and which to remesh.
  - `chunk_blocks.rs`: the blocks of one chunk (a default kind plus the
    positions that differ), terrain filling, and growing trees in the area
    around a chunk.
  - `chunk_render.rs`: visible faces and the vertex and index buffers that
    draw a chunk.
  - `array_queue.rs`: a bounded queue, sorted by key, over `arrayvec`.
  - `maps.rs`: the engine's hash map, behind contracts.
  - `interaction.rs`, `ui.rs`, `console.rs`: breaking and placing blocks,
    input modes, the console line and its completions.
- `tests/` — tests of the library on concrete values.
- `app/` — the game itself: engine plugins and systems, rendering
  materials, physics and the ray traversal (floating point), the terrain
  noise and the command parser.
