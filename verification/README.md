# Verified CircuitPython module logic

The logic behind a few small CircuitPython native modules, written in Verus
and proved against its contracts.

- `src/ticks.rs`: millisecond tick arithmetic that wraps at 2**29.
- `src/debouncer.rs`: a switch debouncer and a button that reports presses,
  releases, short-press counts and long presses.
- `src/mandelbrot.rs`: a 20.12 fixed-point Mandelbrot kernel with wrapping
  32-bit arithmetic.
- `src/hello.rs`: wrapping arithmetic, a calculator that selects an
  operation by name, and a greeting written into a caller's buffer.

`app/` holds the `extern "C"` functions that the C shims call: pointer
handling, the `#[repr(C)]` layouts, and the float division.
