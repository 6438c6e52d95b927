//! The core of a real-time audio visualizer: a bounded buffer for the most
//! recent samples of a live stream, the transform of these samples into a
//! half-spectrum, and the scheduler that fits both into the time of a frame.
//!
//! - [`stream`]: the buffer of recent samples.
//! - [`fft`]: which samples a transform reads and which bins it keeps.
//! - [`level`]: the integer by which the real components of bins are compared.
//! - [`scheduler`]: the cycle of a frame.
//! - [`buffer`]: the pixel buffer a frame is drawn into.
//!
//! The library holds no floating-point arithmetic and does no input or
//! output. Samples and bins are of any type, and a real component is read by
//! its bits; the numeric kernel of the transform, the clock and the channel
//! belong to the program around it.

pub mod buffer;
pub mod fft;
pub mod level;
pub mod scheduler;
pub mod stream;
