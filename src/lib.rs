//! Shadow paging and trap-and-emulate MMIO for a RISC-V hypervisor whose
//! guests run without hardware two-stage translation.
//!
//! - `memory`: guest RAM and the walk of the guest's own page tables.
//! - `pte`: entry bits and the access, privilege and dirty-tracking rules.
//! - `shadow`: the shadow tables and the stale-TLB detector.
//! - `decode` and `device`: what a trapped UART or PLIC access does.
//! - `fault`: the page-fault path that ties these together.
//! - `console`: the register protocol of the console UART.
pub mod console;
pub mod decode;
pub mod device;
pub mod fault;
pub mod memory;
pub mod pte;
pub mod shadow;
