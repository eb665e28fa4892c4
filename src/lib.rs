//! Core of a sampling-profile converter: stack reconstruction, off-CPU
//! accounting, module bias computation and the per-process record dispatcher.
pub mod bias;
pub mod context_switch;
pub mod elf;
pub mod converter;
pub mod interpretation;
pub mod mappings;
pub mod modules;
pub mod paths;
pub mod profile_log;
pub mod registry;
pub mod regs;
pub mod rss;
pub mod stack;
pub mod stacks;
pub mod thread;
pub mod thread_profiler;
