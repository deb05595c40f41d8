//! The decisions of a Vulkan compute benchmark, verified.
//!
//! A benchmark is driven as a state machine: it names the next call to make on
//! the device, and is told how that call went. The program around this library
//! makes the calls.

pub mod actions;
pub mod gpu;
pub mod host;
pub mod job;
pub mod memory;
pub mod pipeline;
pub mod plan;
pub mod report;
pub mod run;
pub mod run_actions;
pub mod run_laws;
pub mod script;
pub mod setup;
pub mod shader;
pub mod table;
pub mod text;
pub mod vulkan;
