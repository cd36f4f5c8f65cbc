# engine

A small voxel-terrain game engine. The verified library (`src/`) holds the
engine's decisions and data structures, each function with a proved contract; `app/` is the window, rendering and game loop around it.

- `terrain`: chunk boxes and the chunks a picking ray crosses, the
  quadrant-by-quadrant chunk loader, the chunk map, the marching-cubes
  configuration index and the dual-contouring resolution per level of detail.
- `animation_graph`, `locomotion`, `player`: the animation state machine, the
  player's locomotion graph and how the movement keys drive it.
- `camera`, `debug`, `ui`: key handling of the free camera, the debug
  switches and chunk outline, and the pointer state of panels and text fields.

`app/` meshes chunks with `libnoise` and `fast-surface-nets`, simulates the
player with `rapier3d`, reads animation clips with `russimp`, and draws with
OpenGL in a GLFW window.
