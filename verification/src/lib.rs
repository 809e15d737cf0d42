//! Biological agent runtime: instincts, the membrane that screens incoming
//! signals, and the energy bookkeeping that decides when an agent dies.

pub mod instinct;
pub mod membrane;
pub mod vitality;

pub use instinct::Instinct;
pub use membrane::{Membrane, MembraneAntibody};
pub use vitality::settle_spend;
