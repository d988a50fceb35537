//! What holds of the library as a whole.

pub mod conditions;
pub mod content;
pub mod detection;
pub mod frame;
pub mod gather;
pub mod gpu;
pub mod hash;
pub mod layout;
pub mod memory;
pub mod numbers;
pub mod placement;
pub mod scene;
pub mod tracer;
