//! Verified core of a small n-body gravity viewer: the camera's input
//! state machine, mesh topology for the sphere and the ground grid, the
//! packing of bodies into the shader's uniform, the pairwise interaction
//! schedule and the window-event decisions.

pub mod controller;
pub mod mesh;
pub mod spacetime;
pub mod nbody;
pub mod events;
