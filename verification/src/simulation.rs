//! What a simulation keeps between runs.

pub mod signal_repository;
