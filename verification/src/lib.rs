//! Convention checks for Solidity projects laid out the way `forge` expects:
//! naming rules for constants, tests, internal functions and scripts, with
//! inline directives that silence findings, and a sorted report.

pub mod check;
pub mod config;
pub mod pattern;
pub mod spec;
pub mod text;
