# gravity_sim

A small n-body gravity viewer: bodies orbit each other above a wireframe
ground grid that dips towards them, and a keyboard/mouse camera looks on.

`src/` is the verified library (Verus):

- `controller` — the camera's key and button state, and the ordered plan
  of camera steps one update performs;
- `mesh` — the vertex lattices, triangle list and line list of the sphere
  and grid meshes, and index buffers;
- `spacetime` — the packing of bodies into the shader's fixed slots;
- `nbody` — the order in which pairwise pulls are summed;
- `events` — what the event loop does for each window event and after
  each frame.

`app/` is the program around it: the window and GPU plumbing (winit,
wgpu, pollster), the floating-point physics and camera geometry (glam),
and the GPU copies of the uniforms (bytemuck).
