//! Verified logic of a set of small CircuitPython native modules: tick
//! arithmetic that wraps at 2**29 ms, switch debouncing and button gestures,
//! a fixed-point Mandelbrot kernel, and a tiny greeting/calculator module.

pub mod ticks;
pub mod debouncer;
pub mod mandelbrot;
pub mod hello;
