//! The command line, as values: what was asked for, independent of the
//! argument parser that read it.

use vstd::prelude::*;
use crate::output::Format;

verus! {

/// Market Identifier Codes and trading calendars.
#[derive(Debug, PartialEq, Eq)]
pub struct Cli {
    pub command: Command,
    /// Output format; defaults to `table` on a terminal, `jsonl` when piped.
    pub format: Option<Format>,
    /// Suppress the vintage banner and other notes on stderr.
    pub quiet: bool,
}

#[derive(Debug, PartialEq, Eq)]
pub enum Command {
    /// ISO 10383 Market Identifier Codes. Offline, no API key.
    Mic(MicCommand),
    /// Market calendars and trading hours. Requires an API key.
    Cal(CalArgs),
}

#[derive(Debug, PartialEq, Eq)]
pub enum MicCommand {
    /// Parse a registry file and summarise what was found.
    Load { path: String, vintage: VintageArgs, issues: bool },
    /// Show a single MIC.
    Get { mic: String, segments: bool, source: SourceArgs },
    /// List MICs, optionally filtered.
    List {
        country: Option<String>,
        status: Option<String>,
        category: Option<String>,
        operating: bool,
        pending: bool,
        limit: Option<usize>,
        source: SourceArgs,
    },
    /// List the segments operating under a MIC.
    Segments { mic: String, source: SourceArgs },
    /// Check a registry file and report every problem found.
    Validate { path: String, vintage: VintageArgs },
    /// Compare two vintages.
    Diff { old: String, new: String },
    /// Download the current registry; the only command that uses the network.
    Fetch { out: Option<String>, published: Option<String> },
    /// List the registry files available locally.
    Vintages,
}

/// Which registry file a read-only command should use.
#[derive(Debug, PartialEq, Eq)]
pub struct SourceArgs {
    /// Registry file to read; the newest in the data directory when absent.
    pub path: Option<String>,
    /// Publication date of `path`, if it cannot be read from the filename.
    pub published: Option<String>,
}

/// Vintage identification for commands that take a path positionally.
#[derive(Debug, PartialEq, Eq)]
pub struct VintageArgs {
    /// Publication date, if it cannot be read from the filename.
    pub published: Option<String>,
}

/// Whatever follows `diurn cal`, so a planned command reports the missing key
/// rather than failing to parse.
#[derive(Debug, PartialEq, Eq)]
pub struct CalArgs {
    pub rest: Vec<String>,
}

} // verus!
