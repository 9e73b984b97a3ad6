# photomosaic

Rebuilds a target image out of the images of a texture atlas: for every image
placed, a population of candidate placements is scored on the GPU, the best
survive and breed, and the winner is drawn onto the canvas.

- `src/` is the verified library: the shift register, the timing statistics (which
  metrics a report shows, in what order), command-line reading with its
  defaults and the configuration checks, atlas
  metadata ordering and file-type checks, and the buffer-size and work-group
  arithmetic behind every GPU dispatch. Each function carries its contract;
  the proof functions state the laws that hold across calls.
- `app/` is the program around it: argument and file I/O, writing the reports, image decoding, the
  GPU device and shaders, floating-point candidate mutation, and video output.
  The WGSL shaders are read at start-up from `shaders/` under the working
  directory.
- `tests/` exercise the library on concrete values.
