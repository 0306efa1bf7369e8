//! Deterministic entry-point execution core for a smart-contract virtual
//! machine: building a machine invocation from a contract class and a call
//! descriptor, driving it to completion, validating the machine's final
//! memory layout against tampering, and tracking visited program counters
//! per class for fee metering.

pub mod entry_point;
pub mod errors;
pub mod execution_utils;
pub mod machine;
pub mod memory;
pub mod state;
pub mod syscall;
pub mod visited_pcs;
