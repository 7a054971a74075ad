//! Settling the publication date of a freshly downloaded registry, and the
//! name it is stored under.

use vstd::prelude::*;
use crate::date::{Date, days_from_civil, date_text, days_since, second_monday_is_a_monday_in_the_second_week, second_monday_of, second_monday_of_month};
use crate::load::{LoadSummary, PublicationChoice, PublishedSource, load_registry, registry_contents, summary_of};
use crate::source::{join_path, joined, vintage_file_name};

verus! {

/// A downloaded vintage smells stale beyond this. ISO publishes monthly, so a
/// current file is at most a few weeks old; five weeks leaves room for a late
/// publication without accepting a date from a previous cycle.
pub const STALE_AFTER_DAYS: i32 = 35;

/// How the publication date was settled, for reporting.
#[derive(Clone, Copy, Debug, PartialEq, Eq, Structural)]
pub enum Resolution {
    Explicit,
    FromFile,
    /// Inference produced something implausible, so the schedule was used.
    ScheduledFallback { rejected: Date },
    /// No effective date in the file at all.
    Scheduled,
}

/// The report line for a settled date.
pub open spec fn resolution_text(r: Resolution, date: Date) -> Seq<char> {
    "published "@ + date_text(date) + match r {
        Resolution::Explicit => " (from --published)"@,
        Resolution::FromFile => " (derived from the file's effective date)"@,
        Resolution::Scheduled => " (assumed: second Monday, no effective date in file)"@,
        Resolution::ScheduledFallback { rejected } => " (assumed: second Monday; the file implied "@
            + date_text(rejected) + ", which is too old to be this month's vintage)"@,
    }
}

impl Resolution {
    /// Say how `date` was arrived at.
    pub fn describe(&self, date: Date) -> (s: String)
        requires
            date.wf(),
            self matches Resolution::ScheduledFallback { rejected } ==> rejected.wf(),
        ensures
            s@ == resolution_text(*self, date),
    {
        let mut s = String::from_str("published ");
        let text = date.to_text();
        s.append(text.as_str());
        match self {
            Resolution::Explicit => s.append(" (from --published)"),
            Resolution::FromFile => s.append(" (derived from the file's effective date)"),
            Resolution::Scheduled => s.append(" (assumed: second Monday, no effective date in file)"),
            Resolution::ScheduledFallback { rejected } => {
                s.append(" (assumed: second Monday; the file implied ");
                let r = rejected.to_text();
                s.append(r.as_str());
                s.append(", which is too old to be this month's vintage)");
            },
        }
        s
    }
}

/// The file name for a vintage published on `published`, the convention
/// `published_from_filename` reads back.
pub fn filename(published: Date) -> (s: String)
    requires
        published.wf(),
    ensures
        s@ == vintage_file_name(published),
{
    let mut s = String::from_str("ISO10383_MIC_");
    let text = published.to_text();
    s.append(text.as_str());
    s.append(".csv");
    s
}

pub open spec fn opt_text(o: Option<&str>) -> Option<Seq<char>> {
    match o {
        Some(s) => Some(s@),
        None => None,
    }
}

/// Where `mic fetch` writes what it downloaded: into `--out` when that names a
/// directory, to `--out` itself when it does not, and by default into the data
/// directory, so that later commands find it. Inside a directory the file is
/// named by its publication date. `None` when there is no `--out` and no data
/// directory either.
pub open spec fn destination(
    out: Option<Seq<char>>,
    out_is_dir: bool,
    data_dir: Option<Seq<char>>,
    published: Date,
    windows: bool,
) -> Option<Seq<char>> {
    match out {
        Some(o) => if out_is_dir {
            Some(joined(o, vintage_file_name(published), windows))
        } else {
            Some(o)
        },
        None => match data_dir {
            Some(d) => Some(joined(d, vintage_file_name(published), windows)),
            None => None,
        },
    }
}

/// The path `mic fetch` writes to.
pub fn fetch_destination(
    out: Option<&str>,
    out_is_dir: bool,
    data_dir: Option<&str>,
    published: Date,
    windows: bool,
) -> (r: Option<String>)
    requires
        published.wf(),
    ensures
        match (r, destination(opt_text(out), out_is_dir, opt_text(data_dir), published, windows)) {
            (Some(p), Some(q)) => p@ == q,
            (None, None) => true,
            _ => false,
        },
{
    match out {
        Some(o) => if out_is_dir {
            let name = filename(published);
            Some(join_path(o, name.as_str(), windows))
        } else {
            Some(String::from_str(o))
        },
        None => match data_dir {
            Some(d) => {
                let name = filename(published);
                Some(join_path(d, name.as_str(), windows))
            },
            None => None,
        },
    }
}

/// The downloaded bytes are not an ISO 10383 CSV; `detail` is the parser's
/// reason.
#[derive(Clone, Debug, PartialEq, Eq)]
pub enum FetchError {
    NotMicCsv { detail: String },
}

/// Read freshly downloaded bytes into a registry summary.
pub fn parse_downloaded(bytes: &[u8], choice: PublicationChoice) -> (r: Result<LoadSummary, FetchError>)
    requires
        choice matches PublicationChoice::Known(d) ==> d.wf(),
    ensures
        r matches Ok(s) ==> (registry_contents(bytes@, choice) matches Ok(t) && s == summary_of(t)),
        r matches Err(FetchError::NotMicCsv { detail }) ==> (registry_contents(bytes@, choice) matches Err(t)
            && t == detail@),
        r matches Ok(s) ==> (choice matches PublicationChoice::Known(d) ==> s.published == d && s.source
            == PublishedSource::Given),
        r matches Ok(s) ==> (choice is Infer ==> s.source != PublishedSource::Given && s.published.wf()),
{
    match load_registry(bytes, choice) {
        Ok(l) => Ok(l.summary()),
        Err(detail) => Err(FetchError::NotMicCsv { detail }),
    }
}

/// The date and resolution settled from what inference found in the file.
pub open spec fn settled(inferred: Date, source: PublishedSource, today: Date) -> (Date, Resolution) {
    if source == PublishedSource::InferredFromEffectiveDate {
        if today.day_number() - inferred.day_number() <= STALE_AFTER_DAYS {
            (inferred, Resolution::FromFile)
        } else {
            (
                second_monday_of(today.year as int, today.month as int),
                Resolution::ScheduledFallback { rejected: inferred },
            )
        }
    } else {
        (second_monday_of(today.year as int, today.month as int), Resolution::Scheduled)
    }
}

/// Settle the publication date from what inference found, knowing today.
///
/// Inference is clock-free, so a fresh download that claims to have been
/// published months ago has latched onto a stale effective date: that is
/// rejected in favour of the schedule. A file with no effective date at all
/// falls to the schedule too.
pub fn settle_published(inferred: Date, source: PublishedSource, today: Date) -> (r: (Date, Resolution))
    requires
        inferred.wf(),
        today.wf(),
    ensures
        r == settled(inferred, source, today),
{
    match source {
        PublishedSource::InferredFromEffectiveDate => {
            let age = days_since(&today, &inferred);
            if age <= STALE_AFTER_DAYS {
                (inferred, Resolution::FromFile)
            } else {
                let scheduled = scheduled_for(today);
                (scheduled, Resolution::ScheduledFallback { rejected: inferred })
            }
        },
        _ => (scheduled_for(today), Resolution::Scheduled),
    }
}

/// The second Monday of today's month.
fn scheduled_for(today: Date) -> (d: Date)
    requires
        today.wf(),
    ensures
        d == second_monday_of(today.year as int, today.month as int),
{
    match second_monday_of_month(today) {
        Ok(d) => d,
        Err(_) => today,
    }
}

/// Settle the publication date of downloaded bytes.
///
/// An explicit date wins outright. Otherwise the file is read with the date
/// inferred from its contents and the result is checked against today.
pub fn resolve_published(bytes: &[u8], explicit: Option<Date>, today: Date) -> (r: Result<
    (Date, Resolution),
    FetchError,
>)
    requires
        today.wf(),
    ensures
        match explicit {
            Some(d) => r == Ok::<(Date, Resolution), FetchError>((d, Resolution::Explicit)),
            None => match registry_contents(bytes@, PublicationChoice::Infer) {
                Ok(t) => r == Ok::<(Date, Resolution), FetchError>(settled(t.2, t.3, today)),
                Err(e) => r matches Err(FetchError::NotMicCsv { detail }) && detail@ == e,
            },
        },
{
    if let Some(d) = explicit {
        return Ok((d, Resolution::Explicit));
    }
    let probe = parse_downloaded(bytes, PublicationChoice::Infer)?;
    Ok(settle_published(probe.published, probe.source, today))
}

/// A response that cannot be a registry download.
#[derive(Clone, Copy, Debug, PartialEq, Eq, Structural)]
pub enum DownloadProblem {
    /// The server answered with a status outside 200..=299.
    HttpStatus(u16),
    /// The body was empty.
    EmptyBody,
}

/// A response status is acceptable when it reports success (2xx).
pub fn check_status(status: u16) -> (r: Result<(), DownloadProblem>)
    ensures
        r is Ok <==> 200 <= status <= 299,
        r matches Err(p) ==> p == DownloadProblem::HttpStatus(status),
{
    if 200 <= status && status <= 299 {
        Ok(())
    } else {
        Err(DownloadProblem::HttpStatus(status))
    }
}

/// A downloaded body is acceptable when it is not empty.
pub fn check_body(body: &[u8]) -> (r: Result<(), DownloadProblem>)
    ensures
        r is Ok <==> body@.len() > 0,
        r matches Err(p) ==> p == DownloadProblem::EmptyBody,
{
    if body.len() == 0 {
        Err(DownloadProblem::EmptyBody)
    } else {
        Ok(())
    }
}


/// A settled publication date is either the inferred one, accepted only when
/// it is at most five weeks old, or the second Monday of the current month: a
/// Monday between the 8th and the 14th.
pub proof fn settled_date_is_recent_or_scheduled(inferred: Date, source: PublishedSource, today: Date)
    requires
        inferred.wf(),
        today.wf(),
    ensures
        ({
            let (d, r) = settled(inferred, source, today);
            ||| (r == Resolution::FromFile && d == inferred && source == PublishedSource::InferredFromEffectiveDate
                && today.day_number() - inferred.day_number() <= STALE_AFTER_DAYS)
            ||| (d.wf() && d.weekday() == 0 && 8 <= d.day <= 14 && d.year == today.year && d.month == today.month)
        }),
{
    second_monday_is_a_monday_in_the_second_week(today);
}


/// A date inferred from an effective date is kept when it is at most 35 days
/// before today, whatever the month or year it falls in; an older one is
/// replaced by the second Monday of today's month, and the report names the
/// date it rejected.
pub proof fn a_recent_effective_date_is_kept(inferred: Date, today: Date)
    requires
        inferred.wf(),
        today.wf(),
    ensures
        days_from_civil(today.year as int, today.month as int, today.day as int) - days_from_civil(
            inferred.year as int,
            inferred.month as int,
            inferred.day as int,
        ) <= 35 ==> settled(inferred, PublishedSource::InferredFromEffectiveDate, today) == (
            inferred,
            Resolution::FromFile,
        ),
        days_from_civil(today.year as int, today.month as int, today.day as int) - days_from_civil(
            inferred.year as int,
            inferred.month as int,
            inferred.day as int,
        ) > 35 ==> settled(inferred, PublishedSource::InferredFromEffectiveDate, today) == (
            second_monday_of(today.year as int, today.month as int),
            Resolution::ScheduledFallback { rejected: inferred },
        ),
{
}

} // verus!
