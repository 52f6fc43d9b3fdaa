//! Core logic of a command-line tool that unifies directory creation, file
//! creation and timestamp manipulation.  The library holds the verified
//! parts: path classification, option validation, timestamp parsing and
//! resolution, and the per-path planning decisions.  Argument parsing,
//! terminal output and the filesystem calls themselves live outside it and
//! hand the library plain values.

pub mod calendar;
pub mod classify;
pub mod datestr;
pub mod errors;
pub mod mode;
pub mod options;
pub mod plan;
pub mod resolve;
pub mod scan;
pub mod stamp;
pub mod timespec;
