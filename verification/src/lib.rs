//! Model-based testing of stateful systems: commands are applied in lockstep
//! to a system under test and to an abstract model of it, and every step is
//! checked by the command's postcondition.

pub mod command;
pub mod engine;
pub mod generate;
pub mod laws;
pub mod queue;
pub mod queue_commands;
pub mod queue_property;
pub mod search;
