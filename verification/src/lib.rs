//! An iterative image-reconstruction service core: given a linear
//! forward model `g = H . f + noise`, the solver estimates the image `f`
//! from a measured signal `g` by a Conjugate Gradient variant on the
//! normal equations, and the surrounding components — model store,
//! admission queue, memory-weighted scheduler, image sink, report log
//! and request orchestrator — carry a job from admission to its PNG and
//! report entry.
//!
//! Floating-point samples travel through the whole library as raw
//! IEEE-754 bit patterns; the scalar arithmetic on them is delegated to
//! bit-exact software floating point behind a handful of trusted
//! functions, and everything around it is verified.

pub mod csvtext;
pub mod format;
pub mod fp64;
pub mod image_sink;
pub mod matrix;
pub mod model;
pub mod orchestrator;
pub mod queue;
pub mod report;
pub mod sched;
pub mod solver;
pub mod time;
pub mod types;
