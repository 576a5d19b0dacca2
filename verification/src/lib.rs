//! Verified core of heisensim: deterministic chaos-simulation primitives.

pub mod text;
pub mod types;
pub mod seed;
pub mod clock;
pub mod process;
pub mod rng;
pub mod net;
pub mod intercept;
pub mod fault;
pub mod k8s;
pub mod probe;
pub mod diverge;
pub mod cli;
pub mod config;
