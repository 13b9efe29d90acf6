//! Verified core of a small cross-platform process-control facade.
//!
//! The facade launches child processes, captures their output, terminates
//! them by identifier, and lists the identifiers of running processes whose
//! name or command line contains a query string.  Everything the facade
//! decides or computes on plain values lives here and carries a contract:
//! building the audit line written before a spawn, combining captured
//! output streams, defaulting the exit code, assembling the arguments of
//! the termination command and judging its outcome, and parsing the text
//! that the OS enumeration tools print.  The calls into the operating
//! system themselves stay outside the library.

pub mod audit;
pub mod capture;
pub mod chars;
pub mod enumerate;
pub mod match_ci;
pub mod num;
pub mod scan;
pub mod terminate;
