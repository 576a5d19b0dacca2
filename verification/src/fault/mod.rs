//! Fault scheduling and the search for interesting seeds.

pub mod explorer;
pub mod injector;
pub mod scheduler;
