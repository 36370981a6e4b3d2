//! A process supervisor's engine: task configuration, the per-replica state
//! machine, task-level verbs, the reload diff, the operator command parser and
//! the terminal's line editor.
//! Every outside effect (spawning, signalling, reaping, clocks, terminals)
//! is performed by the caller, which hands the outcome back as a plain value.
pub mod config;
pub mod process;
pub mod task;
pub mod monitor;
pub mod text;
pub mod terminal;
pub mod editor;
