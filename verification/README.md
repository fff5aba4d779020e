# emilydotgg-random

An FL Studio plugin that moves its output controllers at random. Each controller has a generator
that either jumps to a new random level now and then, or walks from one random level to the next.
An editor shows the recent levels of every controller in a chart.

- `src/` is the library: generators, shared state, the saved state and its byte format, parameter
  changes, voices, and what the editor does with messages. It is verified with Verus, but for five
  trusted items: the two calls into `bincode` that write and read the saved state, the declaration
  of that crate's error type, the call into `chrono` that takes seconds from a time, and the call
  into `fpsdk` that tests parameter flags. Their doc comments say what is believed of the outside
  code.
- `app/` runs the library inside the host: threads, locks, channels, windows and drawing.
- `tests/` runs the library on concrete values.

Levels are single precision numbers. The library holds them as their bit patterns; only the
interpolation between two levels, past the start of the way, is done in floating point, in `app/`.
