//! Reinforcement-learning environments.

pub mod action;
pub mod checkpoints;
pub mod flappy;
