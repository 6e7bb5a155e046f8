# point_sim

A GPU point simulation: many points, each with a position and a velocity,
pushed and pulled by the mouse and by touches, drawn as small squares.

- `src/` is the verified library (Verus). It holds the integer and
  decision logic of the program:
  - `layout`: sizes and counts for the simulation uniform, workgroup
    dispatch, index counts and per-slice buffer sizes, and the packing of
    the input positions into the uniform's slots;
  - `slicing`: how the points are cut into slices that fit the device
    limits, and the shared index buffer that draws every slice;
  - `input`: mouse and touch tracking and the response to window events;
  - `surface`: surface size, alpha mode choice, what to do with each
    result of acquiring the next surface texture, the refresh rate;
  - `config`: the search for the settings file, and the yes/no and point
    count settings;
  - `ping_pong`: the front/back pairs that alternate between updates, and
    which buffer copy each update reads and writes.
- `app/` is the program around it: window and GPU setup (winit, wgpu),
  the settings file parser (toml), the shaders' pipelines, and everything
  that computes with floating-point values. The shaders
  (`compute_simulation.wgsl`, `compute_geometry.wgsl`, `point.wgsl`) are
  read at start-up from the working directory or the executable's directory.
- `tests/` runs the library on concrete values.

Settings are read from `point_sim.toml`, looked for first in the working
directory, then in the executable's directory; the `R` key reloads them.
