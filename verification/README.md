# render

CPU-side logic of a small wgpu rendering layer, verified with Verus.

- `src/` is the verified library:
  - `handle`: unique ids of shared GPU handles
  - `vertex`: vertex formats and buffer layouts
  - `mesh`: mesh attribute storage, its packing and the mesh builders
  - `gpu_mesh`: how an uploaded mesh is bound and drawn
  - `glb`: meshes, materials and the node hierarchy of binary glTF files
  - `font_atlas`: placement of glyphs in a font atlas
  - `ui`: immediate-mode widget ids, interaction state and the widget tree
  - `profiler`: bookkeeping of GPU timestamp queries
  - `resources`: textures, buffers, surface setup and shader inputs
  - `batch`: index lists of quads, lines and gizmo shapes, and the index bookkeeping of a
    batch of gizmos
- `tests/` runs the library on concrete values.
- `app/` is the glue to wgpu, winit, fontdue and glam: uploads, draws, and the float
  computations (bounding boxes, transforms, glyph metrics, text sizes, the widget layout, the
  camera and the gizmo vertices) that the library leaves to it.

Float values that pass through the library (vertex components, material factors, node
transforms) are held as their IEEE 754 bit patterns.
