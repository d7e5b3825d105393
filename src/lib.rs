//! Fixed-point audio signal generation: oscillators, an ADSR envelope, a
//! feedback delay effect, and the per-key voice settings that compose them.

pub mod fixed;
pub mod oscillator;
pub mod error;
pub mod envelope;
pub mod delay;
pub mod voice;
