# brush

The decisions, formats and layouts of a gaussian-splat trainer and viewer, verified with Verus.

- `src/` is the library. Every function states in its contract what it returns, and the
  contracts are proved. Work that goes on between the library and the world (a training run,
  loading splats, a question asked by voice) is a machine: it hands out actions one at a time
  and takes in what came of them. Work for the GPU is a list of operations on named buffers.
  Floating-point numbers are carried as their bit patterns.
- `tests/` runs the library on concrete values.
- `app/` is the program around the library. It performs the actions: it talks to the GPU, the
  sound card, the network, files and the user, and does the floating-point arithmetic.

Outside functions that the library calls (base 64, JSON, durations in words, alphanumeric order,
copying pixels) stand behind small wrappers whose contracts say what is taken for granted.

How a machine writes paths is an argument of the functions that take them apart: with slashes,
or as on Windows, with drives, shares and verbatim paths. `app/` hands in the way of the machine
that it was built for.
