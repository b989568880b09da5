//! A RISC-V (RV32IM / RV64IM) instruction decoder, execution engine and
//! virtual-sequence expander that produces a cycle-accurate execution trace.
//!
//! Instructions whose semantics are not directly expressible as a single
//! provable primitive (the paradigm case: a half-word load, whose effective
//! address need only be half-word aligned while the machine's primitive loads
//! demand natural alignment) are rewritten at trace time into a fixed,
//! width-mode-dependent sequence of primitive instructions over scratch
//! ("virtual") registers. Every expansion checks its architectural
//! precondition first, never branches on data, and is proved to leave the
//! destination register with exactly the value of the direct single-step
//! reference semantics.

pub mod xlen;
pub mod fault;
pub mod format;
pub mod mmu;
pub mod cpu;
pub mod instr;
pub mod step;
pub mod trace;
pub mod exec;
pub mod expand;
pub mod laws;
