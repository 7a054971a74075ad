//! Reading a registry file's bytes with `diurn-mic` into the records, issues
//! and publication date the commands work on.

use vstd::prelude::*;
use crate::commands::RegistryView;
use crate::date::Date;
use crate::source::LoadPlan;
use crate::render::{ChangedView, DiffView, FieldChangeView, IssueView, RecordView, Severity};
use diurn_mic::{LoadOptions, MicRegistry, PublishedSource as MicSource};

verus! {

/// How a registry's publication date was arrived at.
#[derive(Clone, Copy, Debug, PartialEq, Eq, Structural)]
pub enum PublishedSource {
    /// Supplied by the caller.
    Given,
    /// Derived from a pending effective date found in the file.
    InferredFromEffectiveDate,
    /// No effective date was recognisable, so the latest date in the file was
    /// used.
    LatestUpdateInFile,
}

/// The publication date to read a file with: a known one, or inferred from
/// the contents.
#[derive(Clone, Copy, Debug, PartialEq, Eq, Structural)]
pub enum PublicationChoice {
    Known(Date),
    Infer,
}

/// What reading a registry produced, as far as the command needs it.
#[derive(Clone, Copy, Debug, PartialEq, Eq, Structural)]
pub struct LoadSummary {
    pub published: Date,
    pub source: PublishedSource,
    /// Records kept.
    pub records: usize,
    /// Some row could not be used at all.
    pub has_errors: bool,
}

#[verifier::external_type_specification]
#[verifier::external_body]
pub struct ExLoadOutcome(diurn_mic::LoadOutcome);

#[verifier::external_type_specification]
#[verifier::external_body]
pub struct ExMicRegistry(diurn_mic::MicRegistry);

#[verifier::external_type_specification]
#[verifier::external_body]
pub struct ExMicRecord(diurn_mic::MicRecord);

#[verifier::external_type_specification]
#[verifier::external_body]
pub struct ExIssue(diurn_mic::Issue);

#[verifier::external_type_specification]
#[verifier::external_body]
pub struct ExMicDiff(diurn_mic::MicDiff);

/// A registry read from a file's bytes: its records as the commands see them,
/// in file order, with the date they were read as, and what the loader found
/// wrong with the file.
pub struct Loaded {
    pub registry: RegistryView,
    /// The issues, in the order the loader reported them.
    pub issues: Vec<IssueView>,
    /// Some row could not be used at all.
    pub has_errors: bool,
}

/// What `diurn_mic::MicRegistry::load_csv` makes of a file's bytes read with
/// `choice`: the records, converted field for field (the pending flag is the
/// registry's own `is_pending`); the issues, with `kind` holding the issue
/// kind's `Debug` text; the publication date and how it was arrived at; and
/// whether any row was dropped. On failure, the error's `Display` text. CSV
/// parsing, the per-row checks and the date inference take pages to state, so
/// the result is named.
pub uninterp spec fn registry_contents(bytes: Seq<u8>, choice: PublicationChoice) -> Result<
    (Seq<RecordView>, Seq<IssueView>, Date, PublishedSource, bool),
    Seq<char>,
>;

/// What `diurn_mic::validate` reports of the registry read from `bytes` with
/// `choice`, issue kinds as their `Debug` text; or the load's error text.
pub uninterp spec fn registry_validation(bytes: Seq<u8>, choice: PublicationChoice) -> Result<Seq<IssueView>, Seq<char>>;

/// What `diurn_mic::diff` reports between the registries read from two files;
/// or the error text of the first that could not be read.
pub uninterp spec fn registry_difference(
    old: Seq<u8>,
    old_choice: PublicationChoice,
    new: Seq<u8>,
    new_choice: PublicationChoice,
) -> Result<DiffView, Seq<char>>;

/// `diurn_mic::MicRegistry::load_csv` on bytes in memory. The registry it
/// yields is opaque here; the functions below that read it state what they
/// read, by name.
#[verifier::external_body]
fn load_outcome(bytes: &[u8], choice: PublicationChoice) -> (r: Result<diurn_mic::LoadOutcome, String>)
    requires
        choice matches PublicationChoice::Known(d) ==> d.wf(),
{
    let opts = match choice {
        PublicationChoice::Known(d) => LoadOptions::new(jiff::civil::date(d.year, d.month, d.day)),
        PublicationChoice::Infer => LoadOptions::infer(),
    };
    MicRegistry::load_csv(bytes, opts).map_err(|e| e.to_string())
}

/// The codes of a `diurn_mic::MicRecord` as the registry spells them, with
/// the names `diurn-mic` gives its kind and category: MIC, operating MIC,
/// kind, kind name, category, category name, status.
#[verifier::external_body]
fn record_codes(r: &diurn_mic::MicRecord) -> (String, String, String, String, String, Option<String>, String) {
    let (kind, category) = (r.kind, r.category);
    (r.mic.to_string(), r.operating_mic.to_string(), kind.to_string(), kind.description().to_string(),
        category.to_string(), category.description().map(String::from), r.status.to_string())
}

/// The texts of a `diurn_mic::MicRecord`: market name, legal entity, LEI,
/// acronym, country, city, website.
#[verifier::external_body]
fn record_texts(r: &diurn_mic::MicRecord) -> (String, Option<String>, Option<String>, Option<String>, Option<String>, Option<String>, Option<String>) {
    (r.market_name.to_string(), r.legal_entity_name.as_deref().map(String::from), r.lei.map(|l| l.to_string()),
        r.acronym.as_deref().map(String::from), r.country.map(|c| c.to_string()),
        r.city.as_deref().map(String::from), r.website.as_deref().map(String::from))
}

/// The dates of a `diurn_mic::MicRecord` as `jiff` displays them, and its
/// comments: created, last updated, last validated, expires, comments.
#[verifier::external_body]
fn record_dates(r: &diurn_mic::MicRecord) -> (Option<String>, Option<String>, Option<String>, Option<String>, Option<String>) {
    let text = |d: Option<jiff::civil::Date>| d.map(|d| d.to_string());
    (text(r.created), text(r.last_updated), text(r.last_validated), text(r.expires),
        r.comments.as_deref().map(String::from))
}

/// `diurn_mic::MicRegistry::is_pending` for a record's MIC.
#[verifier::external_body]
fn record_pending(reg: &MicRegistry, r: &diurn_mic::MicRecord) -> bool {
    reg.is_pending(r.mic)
}

/// A `diurn_mic::MicRecord` as the commands see it, field for field.
fn record_view(r: &diurn_mic::MicRecord, reg: &MicRegistry) -> RecordView {
    let (mic, operating_mic, kind, kind_name, category, category_name, status) = record_codes(r);
    let (market_name, legal_entity_name, lei, acronym, country, city, website) = record_texts(r);
    let (created, last_updated, last_validated, expires, comments) = record_dates(r);
    let pending = record_pending(reg, r);
    RecordView {
        mic,
        operating_mic,
        kind,
        kind_name,
        market_name,
        legal_entity_name,
        lei,
        category,
        category_name,
        acronym,
        country,
        city,
        website,
        status,
        pending,
        created,
        last_updated,
        last_validated,
        expires,
        comments,
    }
}

/// A `diurn_mic::Issue` field for field: its severity, its kind's `Debug`
/// text, MIC, line, and the kind's `Display` text as the message.
#[verifier::external_body]
fn issue_view(i: &diurn_mic::Issue) -> IssueView {
    let severity = match i.severity {
        diurn_mic::Severity::Info => Severity::Info,
        diurn_mic::Severity::Warning => Severity::Warning,
        diurn_mic::Severity::Error => Severity::Error,
    };
    let (kind, message) = (format!("{:?}", i.kind), i.kind.to_string());
    IssueView { severity, kind, mic: i.mic.map(|m| m.to_string()), line: i.line, message }
}

/// `diurn_mic::MicRegistry::load_csv` with its result converted: the records in
/// file order, the issues, the publication date and its source. Beside naming
/// the result it states what the source plainly shows: a known date is kept as
/// given and reported as `Given`; an inferred one is never reported as given
/// and is a real date.
#[verifier::external_body]
pub(crate) fn load_registry(bytes: &[u8], choice: PublicationChoice) -> (r: Result<Loaded, String>)
    requires
        choice matches PublicationChoice::Known(d) ==> d.wf(),
    ensures
        r matches Ok(l) ==> (registry_contents(bytes@, choice) matches Ok(t) && t == (
            l.registry.records@,
            l.issues@,
            l.registry.published,
            l.registry.source,
            l.has_errors,
        )),
        r matches Err(e) ==> (registry_contents(bytes@, choice) matches Err(t) && t == e@),
        r matches Ok(l) ==> l.registry.published.wf(),
        r matches Ok(l) ==> (choice matches PublicationChoice::Known(d) ==> l.registry.published == d
            && l.registry.source == PublishedSource::Given),
        r matches Ok(l) ==> (choice is Infer ==> l.registry.source != PublishedSource::Given
            && l.registry.published.wf()),
{
    let out = load_outcome(bytes, choice)?;
    let reg = &out.registry;
    let (p, source) = (reg.published(), match reg.published_source() {
        MicSource::Given => PublishedSource::Given,
        MicSource::InferredFromEffectiveDate => PublishedSource::InferredFromEffectiveDate,
        MicSource::LatestUpdateInFile => PublishedSource::LatestUpdateInFile,
    });
    let published = Date { year: p.year(), month: p.month(), day: p.day() };
    let records = reg.iter().map(|r| record_view(r, reg)).collect();
    let issues = out.issues.iter().map(issue_view).collect();
    Ok(Loaded { registry: RegistryView { records, published, source }, issues, has_errors: out.has_errors() })
}

/// `diurn_mic::validate` over the registry read from `bytes`, its issues
/// converted as the loader's are. It fails exactly when the load does.
#[verifier::external_body]
pub(crate) fn validation(bytes: &[u8], choice: PublicationChoice) -> (r: Result<Vec<IssueView>, String>)
    requires
        choice matches PublicationChoice::Known(d) ==> d.wf(),
    ensures
        r matches Ok(v) ==> (registry_validation(bytes@, choice) matches Ok(t) && t == v@),
        r matches Err(e) ==> (registry_validation(bytes@, choice) matches Err(t) && t == e@),
        r is Ok <==> registry_contents(bytes@, choice) is Ok,
{
    let out = load_outcome(bytes, choice)?;
    Ok(diurn_mic::validate(&out.registry).iter().map(issue_view).collect())
}

/// `diurn_mic::diff` between the registries read from two files, converted:
/// added and removed MICs, and each changed MIC with its changed fields. It
/// fails exactly when one of the loads does. The same bytes read with the same
/// date give the same registry, every record of which `diff` finds unchanged
/// in the other, so a file compared with itself shows no difference.
#[verifier::external_body]
pub(crate) fn difference(
    old: &[u8],
    old_choice: PublicationChoice,
    new: &[u8],
    new_choice: PublicationChoice,
) -> (r: Result<DiffView, String>)
    requires
        old_choice matches PublicationChoice::Known(d) ==> d.wf(),
        new_choice matches PublicationChoice::Known(d) ==> d.wf(),
    ensures
        r matches Ok(d) ==> (registry_difference(old@, old_choice, new@, new_choice) matches Ok(t) && t == d),
        r matches Err(e) ==> (registry_difference(old@, old_choice, new@, new_choice) matches Err(t) && t == e@),
        r is Ok <==> (registry_contents(old@, old_choice) is Ok && registry_contents(new@, new_choice) is Ok),
        r matches Ok(d) ==> (old@ == new@ && old_choice == new_choice ==> d.added@.len() == 0
            && d.removed@.len() == 0 && d.changed@.len() == 0),
{
    let (a, b) = (load_outcome(old, old_choice)?, load_outcome(new, new_choice)?);
    Ok(diff_view(&diurn_mic::diff(&a.registry, &b.registry)))
}

/// A `diurn_mic::MicDiff` field for field.
#[verifier::external_body]
fn diff_view(d: &diurn_mic::MicDiff) -> DiffView {
    let change = |f: &diurn_mic::FieldChange| FieldChangeView {
        field: f.field.to_string(), old: f.old.as_deref().map(String::from), new: f.new.as_deref().map(String::from),
    };
    DiffView {
        added: d.added.iter().map(|m| m.to_string()).collect(),
        removed: d.removed.iter().map(|m| m.to_string()).collect(),
        changed: d.changed.iter().map(|c| ChangedView { mic: c.mic.to_string(), changes: c.changes.iter().map(change).collect() }).collect(),
    }
}

/// The summary of a load as a banner reports it.
pub open spec fn summary_of(t: (Seq<RecordView>, Seq<IssueView>, Date, PublishedSource, bool)) -> LoadSummary {
    LoadSummary { published: t.2, source: t.3, records: t.0.len() as usize, has_errors: t.4 }
}

impl Loaded {
    /// What the banner needs of a load.
    pub fn summary(&self) -> (s: LoadSummary)
        ensures
            s == summary_of((
                self.registry.records@,
                self.issues@,
                self.registry.published,
                self.registry.source,
                self.has_errors,
            )),
    {
        LoadSummary {
            published: self.registry.published,
            source: self.registry.source,
            records: self.registry.records.len(),
            has_errors: self.has_errors,
        }
    }
}

/// How a plan's date is used: a known date is read with, else inferred.
pub open spec fn choice_for(published: Option<Date>) -> PublicationChoice {
    match published {
        Some(d) => PublicationChoice::Known(d),
        None => PublicationChoice::Infer,
    }
}

/// Read a registry from the bytes of the file a plan names, with the date the
/// plan settled on, or inferred from the contents when it settled on none.
pub fn load_file(plan: &LoadPlan, bytes: &[u8]) -> (r: Result<Loaded, String>)
    requires
        plan.published matches Some(d) ==> d.wf(),
    ensures
        r matches Ok(l) ==> (registry_contents(bytes@, choice_for(plan.published)) matches Ok(t) && t == (
            l.registry.records@,
            l.issues@,
            l.registry.published,
            l.registry.source,
            l.has_errors,
        )),
        r matches Err(e) ==> (registry_contents(bytes@, choice_for(plan.published)) matches Err(t) && t == e@),
        r matches Ok(l) ==> l.registry.published.wf(),
        r matches Ok(l) ==> (plan.published matches Some(d) ==> l.registry.published == d && l.registry.source
            == PublishedSource::Given),
        r matches Ok(l) ==> (plan.published is None ==> l.registry.source != PublishedSource::Given),
{
    let choice = match plan.published {
        Some(d) => PublicationChoice::Known(d),
        None => PublicationChoice::Infer,
    };
    load_registry(bytes, choice)
}

} // verus!
