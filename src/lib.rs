//! The engine of an audio effect graph: nodes that produce or transform blocks of
//! samples, a graph of them whose input edges never form a cycle, the decisions of
//! the render thread, multi-resolution peak pyramids for waveform views, and the
//! expansion of stored scenes. Samples are carried as the bit patterns of
//! single-precision values; the floating-point arithmetic lives with the caller.
pub mod effects;
pub mod graph;
pub mod mipmap;
pub mod paths;
pub mod player;
pub mod sample;
pub mod scene;
pub mod track;
