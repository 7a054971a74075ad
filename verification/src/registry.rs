//! What the file-reading commands make of a registry once it is read: the
//! issues under their kind names, the pending count, `validate`'s merge of the
//! loader's findings with its own, and `diff` between two files.

use vstd::prelude::*;
use crate::load::{
    Loaded, PublicationChoice, PublishedSource, choice_for, difference, load_file, registry_contents, registry_difference,
    registry_validation, validation,
};
use crate::render::{DiffView, IssueView, RecordView, SummaryView, count_severity, counts_by_kind, kind_name, name_end, summary};
use crate::date::{Date, date_text};
use crate::source::{LoadPlan, text_of};

verus! {

/// `v` is the issue `raw` reported, its kind cut from the kind's `Debug` text
/// to the variant's name.
pub open spec fn named_like(raw: IssueView, v: IssueView) -> bool {
    &&& v.severity == raw.severity
    &&& v.kind@ == raw.kind@.take(name_end(raw.kind@))
    &&& v.mic == raw.mic
    &&& v.line == raw.line
    &&& v.message == raw.message
}

/// `out` is `raw`, issue for issue, each under its kind's name.
pub open spec fn all_named(raw: Seq<IssueView>, out: Seq<IssueView>) -> bool {
    &&& out.len() == raw.len()
    &&& forall|k: int| 0 <= k < raw.len() ==> named_like(raw[k], #[trigger] out[k])
}

fn copy_opt(o: &Option<String>) -> (r: Option<String>)
    ensures
        r == *o,
{
    match o {
        Some(s) => Some(s.clone()),
        None => None,
    }
}

/// Issues as reported, under their kinds' names, so they can be counted by
/// kind.
pub fn named_issues(raw: &Vec<IssueView>) -> (out: Vec<IssueView>)
    ensures
        all_named(raw@, out@),
{
    let mut out: Vec<IssueView> = Vec::new();
    let mut k: usize = 0;
    while k < raw.len()
        invariant
            k <= raw@.len(),
            out@.len() == k,
            forall|j: int| 0 <= j < k ==> named_like(raw@[j], #[trigger] out@[j]),
        decreases raw@.len() - k,
    {
        let i = &raw[k];
        out.push(
            IssueView {
                severity: i.severity,
                kind: kind_name(i.kind.as_str()),
                mic: copy_opt(&i.mic),
                line: i.line,
                message: i.message.clone(),
            },
        );
        k = k + 1;
    }
    out
}

/// How many records carry a change not yet in force.
pub open spec fn count_pending(records: Seq<RecordView>) -> nat
    decreases records.len(),
{
    if records.len() == 0 {
        0
    } else {
        count_pending(records.drop_last()) + if records.last().pending {
            1nat
        } else {
            0nat
        }
    }
}

/// Count the pending records.
pub fn pending_count(records: &Vec<RecordView>) -> (n: usize)
    ensures
        n == count_pending(records@),
{
    let mut n: usize = 0;
    let mut k: usize = 0;
    while k < records.len()
        invariant
            k <= records@.len(),
            n == count_pending(records@.take(k as int)),
            n <= k,
        decreases records@.len() - k,
    {
        assert(records@.take(k + 1).drop_last() =~= records@.take(k as int));
        if records[k].pending {
            n = n + 1;
        }
        k = k + 1;
    }
    assert(records@.take(records@.len() as int) =~= records@);
    n
}

/// What `mic load` reports of a registry by default: the vintage, the record
/// and pending counts, and the issues counted by severity and by kind.
pub fn load_summary(l: &Loaded) -> (view: SummaryView)
    requires
        l.registry.published.wf(),
    ensures
        view.published@ == date_text(l.registry.published),
        view.records == l.registry.records@.len(),
        view.pending == count_pending(l.registry.records@),
        exists|named: Seq<IssueView>|
            {
                &&& all_named(l.issues@, named)
                &&& view.errors == count_severity(named, crate::render::Severity::Error)
                &&& view.warnings == count_severity(named, crate::render::Severity::Warning)
                &&& view.info == count_severity(named, crate::render::Severity::Info)
                &&& counts_by_kind(named, view.by_kind@)
            },
{
    let named = named_issues(&l.issues);
    let pending = pending_count(&l.registry.records);
    summary(l.registry.published, l.registry.records.len(), pending, &named)
}

/// Two issues are the same: every field agrees.
pub open spec fn same_issue(a: IssueView, b: IssueView) -> bool {
    &&& a.severity == b.severity
    &&& a.kind@ == b.kind@
    &&& text_of(a.mic) == text_of(b.mic)
    &&& a.line == b.line
    &&& a.message@ == b.message@
}

/// `x` is among `s`.
pub open spec fn listed(s: Seq<IssueView>, x: IssueView) -> bool {
    exists|i: int| 0 <= i < s.len() && same_issue(#[trigger] s[i], x)
}

/// `first`, then each issue of `more` in turn that is not listed yet.
pub open spec fn merged(first: Seq<IssueView>, more: Seq<IssueView>) -> Seq<IssueView>
    decreases more.len(),
{
    if more.len() == 0 {
        first
    } else {
        let m = merged(first, more.drop_last());
        if listed(m, more.last()) {
            m
        } else {
            m.push(more.last())
        }
    }
}

fn same_opt_text(a: &Option<String>, b: &Option<String>) -> (r: bool)
    ensures
        r == (text_of(*a) == text_of(*b)),
{
    match (a, b) {
        (Some(x), Some(y)) => *x == *y,
        (None, None) => true,
        _ => false,
    }
}

fn same_issue_exec(a: &IssueView, b: &IssueView) -> (r: bool)
    ensures
        r == same_issue(*a, *b),
{
    let line_same = match (a.line, b.line) {
        (Some(x), Some(y)) => x == y,
        (None, None) => true,
        _ => false,
    };
    a.severity == b.severity && a.kind == b.kind && same_opt_text(&a.mic, &b.mic) && line_same && a.message
        == b.message
}

/// Whether `x` is among `s`.
fn is_listed(s: &Vec<IssueView>, x: &IssueView) -> (r: bool)
    ensures
        r == listed(s@, *x),
{
    let mut i: usize = 0;
    while i < s.len()
        invariant
            i <= s@.len(),
            forall|j: int| 0 <= j < i ==> !same_issue(#[trigger] s@[j], *x),
        decreases s@.len() - i,
    {
        if same_issue_exec(&s[i], x) {
            return true;
        }
        i = i + 1;
    }
    false
}

fn copy_issue(i: &IssueView) -> (c: IssueView)
    ensures
        c == *i,
{
    IssueView {
        severity: i.severity,
        kind: i.kind.clone(),
        mic: copy_opt(&i.mic),
        line: i.line,
        message: i.message.clone(),
    }
}

/// The issues `validate` reports: everything the load found, then each issue a
/// fresh structural pass finds that is not already listed.
pub fn merge_issues(first: &Vec<IssueView>, more: &Vec<IssueView>) -> (out: Vec<IssueView>)
    ensures
        out@ == merged(first@, more@),
{
    let mut out: Vec<IssueView> = Vec::new();
    let mut i: usize = 0;
    while i < first.len()
        invariant
            i <= first@.len(),
            out@ == first@.take(i as int),
        decreases first@.len() - i,
    {
        out.push(copy_issue(&first[i]));
        i = i + 1;
        assert(out@ =~= first@.take(i as int));
    }
    assert(first@.take(first@.len() as int) =~= first@);
    assert(more@.take(0) =~= Seq::<IssueView>::empty());
    let mut k: usize = 0;
    while k < more.len()
        invariant
            k <= more@.len(),
            out@ == merged(first@, more@.take(k as int)),
        decreases more@.len() - k,
    {
        let ghost prefix = more@.take(k + 1);
        assert(prefix.drop_last() =~= more@.take(k as int));
        assert(prefix.last() == more@[k as int]);
        if !is_listed(&out, &more[k]) {
            out.push(copy_issue(&more[k]));
        }
        k = k + 1;
    }
    assert(more@.take(more@.len() as int) =~= more@);
    out
}

/// A registry was read with the date a plan settled on: a given date is kept
/// and reported as given, and an inferred one is never reported as given.
pub open spec fn read_with(published: Option<Date>, l: Loaded) -> bool {
    &&& published matches Some(d) ==> l.registry.published == d && l.registry.source == PublishedSource::Given
    &&& published is None ==> l.registry.source != PublishedSource::Given
}

/// `validate` lists everything the load found, first and in its order, then
/// every issue the structural pass found that is not among them, so no issue of
/// either is lost and none is added.
pub proof fn validate_lists_every_issue(first: Seq<IssueView>, more: Seq<IssueView>)
    ensures
        first.len() <= merged(first, more).len() <= first.len() + more.len(),
        merged(first, more).take(first.len() as int) == first,
        forall|k: int| 0 <= k < more.len() ==> listed(merged(first, more), #[trigger] more[k]),
        forall|k: int|
            #![trigger merged(first, more)[k]]
            first.len() <= k < merged(first, more).len() ==> exists|j: int|
                #![trigger more[j]]
                0 <= j < more.len() && merged(first, more)[k] == more[j],
    decreases more.len(),
{
    if more.len() == 0 {
        assert(first.take(first.len() as int) =~= first);
    } else {
        let rest = more.drop_last();
        let x = more.last();
        validate_lists_every_issue(first, rest);
        let m = merged(first, rest);
        let r = merged(first, more);
        if !listed(m, x) {
            assert(r == m.push(x));
            assert(r.take(first.len() as int) =~= m.take(first.len() as int));
            assert(same_issue(r[m.len() as int], x));
        }
        assert forall|k: int| 0 <= k < more.len() implies listed(r, #[trigger] more[k]) by {
            if k < more.len() - 1 {
                assert(more[k] == rest[k]);
                let i = choose|i: int| 0 <= i < m.len() && same_issue(#[trigger] m[i], rest[k]);
                assert(r[i] == m[i]);
            } else if listed(m, x) {
                let i = choose|i: int| 0 <= i < m.len() && same_issue(#[trigger] m[i], x);
                assert(r[i] == m[i]);
            }
        }
        assert forall|k: int| #![trigger r[k]] first.len() <= k < r.len() implies exists|j: int|
            #![trigger more[j]]
            0 <= j < more.len() && r[k] == more[j] by {
            if k < m.len() {
                assert(m[k] == r[k]);
                let j = choose|j: int| #![trigger rest[j]] 0 <= j < rest.len() && m[k] == rest[j];
                assert(more[j] == rest[j]);
            } else {
                assert(r[k] == more[more.len() - 1]);
            }
        }
    }
}

/// `mic validate`: the registry read from a file's bytes, and every issue
/// found, the loader's first, under their kinds' names.
pub fn validate_file(plan: &LoadPlan, bytes: &[u8]) -> (r: Result<(Loaded, Vec<IssueView>), String>)
    requires
        plan.published matches Some(d) ==> d.wf(),
    ensures
        match r {
            Ok((l, all)) => {
                &&& registry_contents(bytes@, choice_for(plan.published)) matches Ok(t)
                &&& t == (l.registry.records@, l.issues@, l.registry.published, l.registry.source, l.has_errors)
                &&& registry_validation(bytes@, choice_for(plan.published)) matches Ok(found)
                &&& all_named(merged(l.issues@, found), all@)
                &&& read_with(plan.published, l)
            },
            Err(e) => registry_contents(bytes@, choice_for(plan.published)) matches Err(t) && t == e@,
        },
{
    let l = load_file(plan, bytes)?;
    let choice = match plan.published {
        Some(d) => PublicationChoice::Known(d),
        None => PublicationChoice::Infer,
    };
    let found = match validation(bytes, choice) {
        Ok(v) => v,
        Err(e) => return Err(e),
    };
    let all = merge_issues(&l.issues, &found);
    let named = named_issues(&all);
    Ok((l, named))
}

/// Which of two files could not be read as a registry, and why.
#[derive(Debug, PartialEq, Eq)]
pub enum UnreadFile {
    Old(String),
    New(String),
}

/// `mic diff`: the registries read from two files, and what changed between
/// them. A file that cannot be read is reported, the first one first.
pub fn diff_files(old: &LoadPlan, old_bytes: &[u8], new: &LoadPlan, new_bytes: &[u8]) -> (r: Result<
    (Loaded, Loaded, DiffView),
    UnreadFile,
>)
    requires
        old.published matches Some(d) ==> d.wf(),
        new.published matches Some(d) ==> d.wf(),
    ensures
        match r {
            Ok((a, b, d)) => {
                &&& registry_contents(old_bytes@, choice_for(old.published)) matches Ok(t)
                &&& t == (a.registry.records@, a.issues@, a.registry.published, a.registry.source, a.has_errors)
                &&& registry_contents(new_bytes@, choice_for(new.published)) matches Ok(u)
                &&& u == (b.registry.records@, b.issues@, b.registry.published, b.registry.source, b.has_errors)
                &&& registry_difference(old_bytes@, choice_for(old.published), new_bytes@, choice_for(new.published))
                    matches Ok(x) && x == d
                &&& read_with(old.published, a) && read_with(new.published, b)
                &&& old_bytes@ == new_bytes@ && old.published == new.published ==> d.added@.len() == 0
                    && d.removed@.len() == 0 && d.changed@.len() == 0
            },
            Err(UnreadFile::Old(e)) => registry_contents(old_bytes@, choice_for(old.published)) matches Err(t)
                && t == e@,
            Err(UnreadFile::New(e)) => {
                &&& registry_contents(old_bytes@, choice_for(old.published)) is Ok
                &&& registry_contents(new_bytes@, choice_for(new.published)) matches Err(t) && t == e@
            },
        },
{
    let a = match load_file(old, old_bytes) {
        Ok(a) => a,
        Err(e) => return Err(UnreadFile::Old(e)),
    };
    let b = match load_file(new, new_bytes) {
        Ok(b) => b,
        Err(e) => return Err(UnreadFile::New(e)),
    };
    let oc = match old.published {
        Some(d) => PublicationChoice::Known(d),
        None => PublicationChoice::Infer,
    };
    let nc = match new.published {
        Some(d) => PublicationChoice::Known(d),
        None => PublicationChoice::Infer,
    };
    match difference(old_bytes, oc, new_bytes, nc) {
        Ok(d) => Ok((a, b, d)),
        Err(e) => Err(UnreadFile::New(e)),
    }
}

} // verus!
