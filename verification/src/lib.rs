//! A falling-sand cellular automaton: a grid of typed particles that decays,
//! reacts and moves once per tick, with every rule stated as a contract.
//!
//! Densities and probabilities are exact integers and ratios, so that every
//! rule can be stated and proved without rounding.

pub mod colors;
pub mod element;
pub mod probability;
pub mod random;
pub mod shapes;
pub mod ui;
pub mod world;
