//! Device and trap emulation layer of a small virtual console.
//!
//! The crate models the host side of a trap-driven machine: a program
//! loader that plans the guest memory image, a bump allocator serving a
//! heap syscall, a read-only drive answering file syscalls, a console
//! byte sink, a GPU submission protocol, and the run loop decisions that
//! tie them together.  Everything here works on plain values (registers,
//! byte windows, tables); the CPU engine, disk and window system live
//! outside and are driven by a thin unverified harness.

pub mod configuration;
pub mod console;
pub mod dynmemory;
pub mod emulator;
pub mod features;
pub mod filesystem;
pub mod gpu;
pub mod input;
pub mod runloop;
