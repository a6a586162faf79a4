//! A two-world frame pipeline: a simulation world and a render world, with
//! scoped loans of one world into the other's resource slots during the
//! Extract and Queue stages.

pub mod pipeline;
pub mod schedule;
pub mod scratch;
pub mod world;
