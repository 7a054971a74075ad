//! Output format and the vintage banner.

use vstd::prelude::*;
use crate::date::{Date, date_text};
use crate::load::{LoadSummary, PublishedSource};
use crate::text::{decimal, decimal_text};

verus! {

/// How results are written.
#[derive(Clone, Copy, Debug, PartialEq, Eq, Structural)]
pub enum Format {
    /// Aligned columns for reading.
    Table,
    /// One JSON document.
    Json,
    /// One JSON object per line, for streaming into other tools.
    Jsonl,
    /// Comma-separated, with a header row.
    Csv,
}

impl Format {
    /// Pick a format when the user did not name one.
    ///
    /// A terminal gets aligned columns; anything else gets JSON Lines, because
    /// the overwhelmingly likely reason stdout is not a terminal is that
    /// something else is about to read it.
    pub fn resolve(requested: Option<Format>, stdout_is_terminal: bool) -> (f: Format)
        ensures
            f == (match requested {
                Some(r) => r,
                None => if stdout_is_terminal {
                    Format::Table
                } else {
                    Format::Jsonl
                },
            }),
    {
        match requested {
            Some(r) => r,
            None => if stdout_is_terminal {
                Format::Table
            } else {
                Format::Jsonl
            },
        }
    }
}

/// Where the registry came from, for the banner.
#[derive(Debug, PartialEq, Eq)]
pub struct Provenance {
    pub origin: String,
    pub published: Date,
    pub source: PublishedSource,
    pub records: usize,
}

impl Provenance {
    /// The provenance of a loaded registry read from `origin`.
    pub fn new(origin: &str, loaded: &LoadSummary) -> (p: Provenance)
        ensures
            p.origin@ == origin@,
            p.published == loaded.published,
            p.source == loaded.source,
            p.records == loaded.records,
    {
        Provenance {
            origin: String::from_str(origin),
            published: loaded.published,
            source: loaded.source,
            records: loaded.records,
        }
    }
}

/// How the banner qualifies a date that was not given.
pub open spec fn derivation_text(source: PublishedSource) -> Seq<char> {
    match source {
        PublishedSource::Given => Seq::empty(),
        PublishedSource::InferredFromEffectiveDate => " (date inferred from file)"@,
        PublishedSource::LatestUpdateInFile => " (date is the latest in file; no pending records)"@,
    }
}

/// The banner line announcing a vintage.
pub open spec fn banner_text(p: Provenance) -> Seq<char> {
    "ISO 10383 vintage "@ + date_text(p.published) + " — "@ + decimal_text(p.records as nat)
        + " records, "@ + p.origin@ + derivation_text(p.source)
}

/// Announce which vintage produced the output that follows, unless `--quiet`.
///
/// The banner belongs on stderr, never stdout: `diurn mic get XNYS --format
/// json | jq` must see nothing but JSON, and a human still needs to know how
/// stale the data is.
pub fn banner(p: &Provenance, quiet: bool) -> (line: Option<String>)
    requires
        p.published.wf(),
    ensures
        quiet ==> line is None,
        !quiet ==> (line matches Some(s) && s@ == banner_text(*p)),
{
    if quiet {
        return None;
    }
    let mut s = String::from_str("ISO 10383 vintage ");
    let date = p.published.to_text();
    s.append(date.as_str());
    s.append(" — ");
    let n = decimal(p.records as u64);
    s.append(n.as_str());
    s.append(" records, ");
    s.append(p.origin.as_str());
    match p.source {
        PublishedSource::Given => {},
        PublishedSource::InferredFromEffectiveDate => s.append(" (date inferred from file)"),
        PublishedSource::LatestUpdateInFile => s.append(" (date is the latest in file; no pending records)"),
    }
    proof {
        assert(Seq::<char>::empty() + s@ =~= s@);
    }
    Some(s)
}

} // verus!
