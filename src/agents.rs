//! The decisions of the agents that run on top of the capture engine.
pub mod proxy;
