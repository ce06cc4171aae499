//! Core of an LLM-driven agent: the reply-loop state machine, tool dispatch
//! routing, a repetition monitor, a permission gate, and the scheduled-job
//! control surface, with their behaviour stated in contracts.

pub mod agent;
pub mod args;
pub mod clock;
pub mod extensions;
pub mod json;
pub mod message;
pub mod monitor;
pub mod oversize;
pub mod permission;
pub mod platform;
pub mod prompts;
pub mod recipe;
pub mod reply;
pub mod router;
pub mod schedule_tool;
pub mod scheduler;
pub mod strutil;
pub mod tools;
