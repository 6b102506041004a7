# ray_marcher

A GPU ray-marching renderer. The library (`src/`) holds the parts of the program that are
plain values and decisions, each with a proved contract:

- `frame_timer`: the rolling window of frame times and its statistics and report line;
- `input`: keys held down (by logical key and by browser key name), per-key button state,
  gathered mouse motion, and the camera
  axes the held keys ask for;
- `window_events`: what the application does with each window event, and the surface size;
- `light_buffers`, `scene_descriptor`: the light table and scene header the shader reads;
- `stats`: the rows of the statistics table;
- `text`: decimal notation and character buffers.

`app/` is the program around it: the window, the GPU pipeline and buffers, the
floating-point camera and scene, and the browser listeners.
