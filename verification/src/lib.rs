//! Value model and native-function bridge of an embedded scripting runtime.
//!
//! The library defines the tagged runtime value, the calling convention of the
//! built-in functions (argument count first, argument variants second, only
//! then the work), the process-wide symbol table the built-ins are registered
//! in, and the module objects that package a family of built-ins as a value.
//! Work that only the host can do — hardware floating-point arithmetic, the
//! filesystem, the clock, the network — is returned to the caller as an
//! explicit request, and a verified step turns the host's reply into the
//! built-in's result.

pub mod bridge;
pub mod collections;
pub mod http;
pub mod io;
pub mod math;
pub mod num;
pub mod string;
pub mod sys;
pub mod symbol_table;
pub mod value;
