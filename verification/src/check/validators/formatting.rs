//! Solidity and TOML files are formatted.
//!
//! The formatters are not run here. This rule judges what they answered:
//! how `forge fmt --check` ended, and what the TOML formatter made of the
//! project's configuration.

use crate::text::{chars_of, same};
use vstd::prelude::*;

verus! {

/// Formatting is in order: the Solidity formatter succeeded and wrote
/// nothing to its standard error, and formatting the configuration `config`
/// gives `formatted`, the same text.
pub open spec fn is_formatted(
    forge_succeeded: bool,
    forge_stderr: Seq<char>,
    config: Seq<char>,
    formatted: Seq<char>,
) -> bool {
    forge_succeeded && forge_stderr.len() == 0 && config == formatted
}

/// Validates that Solidity and TOML files are formatted correctly, from what
/// the formatters answered.
pub fn validate(forge_succeeded: bool, forge_stderr: &str, config: &str, formatted: &str) -> (r:
    bool)
    ensures
        r == is_formatted(forge_succeeded, forge_stderr@, config@, formatted@),
{
    let forge_ok = forge_succeeded && forge_stderr.is_empty();
    let taplo_ok = same(chars_of(config).as_slice(), chars_of(formatted).as_slice());
    forge_ok && taplo_ok
}

} // verus!
