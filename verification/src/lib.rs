//! Verified decision logic of a creature simulator: collision layers of the
//! parts of a body, the bookkeeping of the body builder, the keyboard and
//! pickup controls, and the assignment of oscillators to muscles.
pub mod builder;
pub mod keyboard;
pub mod layer;
pub mod oscillator;
pub mod pickup;
