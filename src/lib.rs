//! The core of a register-based virtual machine over a prime field: write-once
//! segmented memory, operand deduction, register updates, the bitwise builtin
//! and the keccak hints.
pub mod bitwise;
pub mod builtin_runner;
pub mod errors;
pub mod felt;
pub mod instruction;
pub mod keccak_utils;
pub mod memory;
pub mod relocatable;
pub mod run_context;
pub mod segments;
pub mod vm_core;
