//! Dispatch and policy for system calls between cages and grates.
//!
//! A cage makes a call; a handler table says who serves it, a policy says whether it
//! may name the cages that it names, and the dispatcher decides what is done with it:
//! return a value, call a host function, or enter a wasm grate. The modules hold the
//! parts of that decision, and the parts of a runner that measures them:
//!
//! - [`handler`]: the handler tables
//! - [`bits`], [`cage`]: who descends from whom, and who was granted what
//! - [`bpf`]: filter programs
//! - [`dispatch`]: the policy hook and the dispatcher
//! - [`grate`]: stacks of wasm grates and the trampoline into them
//! - [`timing`]: the course of a measurement, and reports
//! - [`cli`], [`runner`]: the command line and the set-up of the runner
//! - [`text`]: numbers and searches in text
pub mod bits;
pub mod bpf;
pub mod cage;
pub mod cli;
pub mod dispatch;
pub mod grate;
pub mod handler;
pub mod runner;
pub mod text;
pub mod timing;
