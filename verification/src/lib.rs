//! Verified core of a tool that reads and writes the external flash of a
//! CC13xx/CC26xx device through a debug probe.

pub mod trace_level;
pub mod register;
pub mod write_plan;
pub mod write_job;
pub mod ccxml;
pub mod jvm;
pub mod assets;
pub mod target;
