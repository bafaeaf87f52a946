# path_tracer

A progressive path tracer with an interactive scene editor.

- `src/` is the verified library (Verus): the skybox and material-kind
  choices, the render options, the progress percentage a render prints, the
  bookkeeping of an interactive render session (full resolution versus
  reduced preview, sample count), the names of saved renders and new spheres,
  decimal formatting, the plain-text PPM image format, and the pixel canvas.
- `app/` is the program around it: the egui window, the render threads, file
  output, and everything that computes with floating-point colours and
  geometry (rays, spheres, quads, materials, camera).
- `tests/` exercises the library on concrete values.
