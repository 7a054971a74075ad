//! Turning registry values into text.
//!
//! Every column choice and every shape of output lives here. Records, issues
//! and differences arrive as plain views; the JSON and CSV encodings of those
//! views belong to the program that writes them.

use vstd::prelude::*;
use crate::table::{Table, table_text};
use crate::date::{Date, date_text};
use crate::order::{is_permutation, lex_order, listed_before, stable_order, lemma_lex_order_zero_is_equal};
use crate::text::{clip, clipped, decimal, decimal_text, push_char, same_text};

verus! {

/// A record flattened for output.
///
/// Hand-written rather than the parser's own type, because the wire shape of a
/// command is a compatibility promise of its own.
#[derive(Debug, PartialEq, Eq)]
pub struct RecordView {
    pub mic: String,
    pub operating_mic: String,
    pub kind: String,
    pub kind_name: String,
    pub market_name: String,
    pub legal_entity_name: Option<String>,
    pub lei: Option<String>,
    pub category: String,
    pub category_name: Option<String>,
    pub acronym: Option<String>,
    pub country: Option<String>,
    pub city: Option<String>,
    pub website: Option<String>,
    pub status: String,
    /// True when this record's change is published but not yet in force.
    pub pending: bool,
    pub created: Option<String>,
    pub last_updated: Option<String>,
    pub last_validated: Option<String>,
    pub expires: Option<String>,
    pub comments: Option<String>,
}

fn copy_opt(o: &Option<String>) -> (r: Option<String>)
    ensures
        r == *o,
{
    match o {
        Some(s) => Some(s.clone()),
        None => None,
    }
}

impl RecordView {
    /// A copy of this view.
    pub fn duplicate(&self) -> (v: RecordView)
        ensures
            v == *self,
    {
        RecordView {
            mic: self.mic.clone(),
            operating_mic: self.operating_mic.clone(),
            kind: self.kind.clone(),
            kind_name: self.kind_name.clone(),
            market_name: self.market_name.clone(),
            legal_entity_name: copy_opt(&self.legal_entity_name),
            lei: copy_opt(&self.lei),
            category: self.category.clone(),
            category_name: copy_opt(&self.category_name),
            acronym: copy_opt(&self.acronym),
            country: copy_opt(&self.country),
            city: copy_opt(&self.city),
            website: copy_opt(&self.website),
            status: self.status.clone(),
            pending: self.pending,
            created: copy_opt(&self.created),
            last_updated: copy_opt(&self.last_updated),
            last_validated: copy_opt(&self.last_validated),
            expires: copy_opt(&self.expires),
            comments: copy_opt(&self.comments),
        }
    }
}

/// The text of an optional field, or `dflt` when it is absent.
pub open spec fn or_text(o: Option<String>, dflt: Seq<char>) -> Seq<char> {
    match o {
        Some(s) => s@,
        None => dflt,
    }
}

/// An optional field's text, or `dflt` when it is absent.
fn text_or(o: &Option<String>, dflt: &str) -> (s: String)
    ensures
        s@ == or_text(*o, dflt@),
{
    match o {
        Some(t) => t.clone(),
        None => String::from_str(dflt),
    }
}

/// The columns of the record table.
pub open spec fn record_headers() -> Seq<Seq<char>> {
    seq!["MIC"@, "OPER"@, "TYPE"@, "CC"@, "STATUS"@, "CATEGORY"@, "NAME"@]
}

/// A record's row: a pending record's status is marked with `*`, a missing
/// country shows as `--`, and the name is clipped to 52 characters.
pub open spec fn record_cells(v: RecordView) -> Seq<Seq<char>> {
    seq![
        v.mic@,
        v.operating_mic@,
        v.kind@,
        or_text(v.country, "--"@),
        if v.pending { v.status@.push('*') } else { v.status@ },
        v.category@,
        clipped(v.market_name@, 52),
    ]
}

pub open spec fn texts(lines: Seq<String>) -> Seq<Seq<char>> {
    lines.map_values(|s: String| s@)
}

/// The record table, or a line saying there is nothing to show.
pub open spec fn records_text(views: Seq<RecordView>) -> Seq<Seq<char>> {
    if views.len() == 0 {
        seq!["no matching records"@]
    } else {
        table_text(record_headers(), views.map_values(|v: RecordView| record_cells(v)))
    }
}

/// A record's table row.
fn record_row(v: &RecordView) -> (row: Vec<String>)
    ensures
        texts(row@) == record_cells(*v),
{
    let mut status = v.status.clone();
    if v.pending {
        push_char(&mut status, '*');
    }
    let row = vec![
        v.mic.clone(),
        v.operating_mic.clone(),
        v.kind.clone(),
        text_or(&v.country, "--"),
        status,
        v.category.clone(),
        clip(v.market_name.as_str(), 52),
    ];
    assert(texts(row@) =~= record_cells(*v));
    row
}

/// Render a set of records as a table.
pub fn records_table(views: &Vec<RecordView>) -> (out: Vec<String>)
    ensures
        texts(out@) == records_text(views@),
{
    if views.len() == 0 {
        let out = vec![String::from_str("no matching records")];
        assert(texts(out@) =~= records_text(views@));
        return out;
    }
    let mut t = Table::new(&["MIC", "OPER", "TYPE", "CC", "STATUS", "CATEGORY", "NAME"]);
    assert(t.header_text() =~= record_headers());
    let mut i: usize = 0;
    while i < views.len()
        invariant
            i <= views@.len(),
            t.header_text() == record_headers(),
            t.row_text() == views@.take(i as int).map_values(|v: RecordView| record_cells(v)),
        decreases views@.len() - i,
    {
        let row = record_row(&views[i]);
        assert(texts(row@).len() == row@.len());
        t.push(row);
        i = i + 1;
        assert(t.row_text() =~= views@.take(i as int).map_values(|v: RecordView| record_cells(v)));
    }
    assert(views@.take(views@.len() as int) =~= views@);
    t.lines()
}


/// A label padded to the detail listing's 18-character column.
pub open spec fn label_text(k: Seq<char>) -> Seq<char> {
    k + Seq::new(if k.len() < 18 { (18 - k.len()) as nat } else { 0 }, |_i: int| ' ')
}

/// One line of the detail listing, or none when the value is empty.
pub open spec fn field_line(k: Seq<char>, val: Seq<char>) -> Seq<Seq<char>> {
    if val.len() == 0 {
        Seq::empty()
    } else {
        seq![label_text(k) + val]
    }
}

/// How the detail listing describes a record's category.
pub open spec fn category_text(v: RecordView) -> Seq<char> {
    v.category@ + match v.category_name {
        Some(n) => " ("@ + n@ + ")"@,
        None => " (unrecognised)"@,
    }
}

/// One record in full, one field per line; empty fields are left out.
pub open spec fn detail_text(v: RecordView) -> Seq<Seq<char>> {
    field_line("MIC"@, v.mic@) + field_line("Name"@, v.market_name@) + field_line(
        "Operating MIC"@,
        v.operating_mic@,
    ) + field_line("Type"@, v.kind@ + " ("@ + v.kind_name@ + ")"@) + field_line(
        "Category"@,
        category_text(v),
    ) + field_line("Status"@, v.status@) + (if v.pending {
        field_line("Pending"@, "yes — takes effect "@ + or_text(v.last_updated, "?"@))
    } else {
        Seq::empty()
    }) + field_line("Country"@, or_text(v.country, Seq::empty())) + field_line(
        "City"@,
        or_text(v.city, Seq::empty()),
    ) + field_line("Legal entity"@, or_text(v.legal_entity_name, Seq::empty())) + field_line(
        "LEI"@,
        or_text(v.lei, Seq::empty()),
    ) + field_line("Acronym"@, or_text(v.acronym, Seq::empty())) + field_line(
        "Website"@,
        or_text(v.website, Seq::empty()),
    ) + field_line("Created"@, or_text(v.created, Seq::empty())) + field_line(
        "Last updated"@,
        or_text(v.last_updated, Seq::empty()),
    ) + field_line("Last validated"@, or_text(v.last_validated, Seq::empty())) + field_line(
        "Expires"@,
        or_text(v.expires, Seq::empty()),
    ) + field_line("Comments"@, or_text(v.comments, Seq::empty()))
}

/// Add a detail line for `k` unless `val` is empty.
fn push_field(out: &mut Vec<String>, k: &str, val: &str)
    ensures
        texts(final(out)@) == texts(old(out)@) + field_line(k@, val@),
{
    let ghost before = texts(out@);
    if val.unicode_len() > 0 {
        let mut line = String::from_str(k);
        let n = k.unicode_len();
        if n < 18 {
            crate::text::push_spaces(&mut line, 18 - n);
        }
        line.append(val);
        assert(line@ =~= label_text(k@) + val@);
        out.push(line);
        assert(texts(out@) =~= before + field_line(k@, val@));
    } else {
        assert(texts(out@) =~= before + field_line(k@, val@));
    }
}

/// One record in full. A single record has no columns to align against, so the
/// table form goes long rather than wide.
pub fn record_detail_lines(v: &RecordView) -> (out: Vec<String>)
    ensures
        texts(out@) == detail_text(*v),
{
    let mut out: Vec<String> = Vec::new();
    assert(texts(out@) =~= Seq::empty());
    push_field(&mut out, "MIC", v.mic.as_str());
    push_field(&mut out, "Name", v.market_name.as_str());
    push_field(&mut out, "Operating MIC", v.operating_mic.as_str());
    let mut kind = v.kind.clone();
    kind.append(" (");
    kind.append(v.kind_name.as_str());
    kind.append(")");
    push_field(&mut out, "Type", kind.as_str());
    let mut category = v.category.clone();
    match &v.category_name {
        Some(n) => {
            category.append(" (");
            category.append(n.as_str());
            category.append(")");
        },
        None => category.append(" (unrecognised)"),
    }
    assert(category@ =~= category_text(*v));
    push_field(&mut out, "Category", category.as_str());
    push_field(&mut out, "Status", v.status.as_str());
    let ghost before_pending = texts(out@);
    if v.pending {
        let mut p = String::from_str("yes — takes effect ");
        let when = text_or(&v.last_updated, "?");
        p.append(when.as_str());
        push_field(&mut out, "Pending", p.as_str());
    }
    assert(texts(out@) =~= before_pending + (if v.pending {
        field_line("Pending"@, "yes — takes effect "@ + or_text(v.last_updated, "?"@))
    } else {
        Seq::empty()
    }));
    let country = text_or(&v.country, "");
    push_field(&mut out, "Country", country.as_str());
    let city = text_or(&v.city, "");
    push_field(&mut out, "City", city.as_str());
    let entity = text_or(&v.legal_entity_name, "");
    push_field(&mut out, "Legal entity", entity.as_str());
    let lei = text_or(&v.lei, "");
    push_field(&mut out, "LEI", lei.as_str());
    let acronym = text_or(&v.acronym, "");
    push_field(&mut out, "Acronym", acronym.as_str());
    let website = text_or(&v.website, "");
    push_field(&mut out, "Website", website.as_str());
    let created = text_or(&v.created, "");
    push_field(&mut out, "Created", created.as_str());
    let updated = text_or(&v.last_updated, "");
    push_field(&mut out, "Last updated", updated.as_str());
    let validated = text_or(&v.last_validated, "");
    push_field(&mut out, "Last validated", validated.as_str());
    let expires = text_or(&v.expires, "");
    push_field(&mut out, "Expires", expires.as_str());
    let comments = text_or(&v.comments, "");
    push_field(&mut out, "Comments", comments.as_str());
    proof {
        reveal_strlit("");
        assert(""@ =~= Seq::<char>::empty());
    }
    out
}


/// How seriously to take an issue the loader reported.
#[derive(Clone, Copy, Debug, PartialEq, Eq, Structural)]
pub enum Severity {
    Info,
    Warning,
    Error,
}

pub open spec fn severity_text(s: Severity) -> Seq<char> {
    match s {
        Severity::Info => "info"@,
        Severity::Warning => "warning"@,
        Severity::Error => "error"@,
    }
}

/// The lower-case name of a severity.
pub fn severity_str(s: Severity) -> (r: &'static str)
    ensures
        r@ == severity_text(s),
{
    match s {
        Severity::Info => "info",
        Severity::Warning => "warning",
        Severity::Error => "error",
    }
}

/// An issue flattened for output.
#[derive(Debug, PartialEq, Eq)]
pub struct IssueView {
    pub severity: Severity,
    /// The kind's name without its payload.
    pub kind: String,
    pub mic: Option<String>,
    pub line: Option<u64>,
    pub message: String,
}

/// Where the variant name of a debug rendering ends: at its first space,
/// opening parenthesis or opening brace.
pub open spec fn name_end(s: Seq<char>) -> int
    decreases s.len(),
{
    if s.len() == 0 || s[0] == ' ' || s[0] == '(' || s[0] == '{' {
        0
    } else {
        1 + name_end(s.drop_first())
    }
}

proof fn lemma_name_end(s: Seq<char>, k: int)
    requires
        0 <= k <= s.len(),
        forall|i: int| 0 <= i < k ==> #[trigger] s[i] != ' ' && s[i] != '(' && s[i] != '{',
        k == s.len() || s[k] == ' ' || s[k] == '(' || s[k] == '{',
    ensures
        name_end(s) == k,
    decreases k,
{
    if k > 0 {
        lemma_name_end(s.drop_first(), k - 1);
    }
}

fn is_name_end(c: char) -> (r: bool)
    ensures
        r == (c == ' ' || c == '(' || c == '{'),
{
    c == ' ' || c == '(' || c == '{'
}

/// The variant name of an issue kind, from its debug rendering, so issues can
/// be counted by kind: everything before the first space, `(` or `{`.
pub fn kind_name(debug: &str) -> (name: String)
    ensures
        name@ == debug@.take(name_end(debug@)),
{
    let n = debug.unicode_len();
    let mut k: usize = 0;
    while k < n && !is_name_end(debug.get_char(k))
        invariant
            n == debug@.len(),
            k <= n,
            forall|i: int| 0 <= i < k ==> #[trigger] debug@[i] != ' ' && debug@[i] != '(' && debug@[i] != '{',
        decreases n - k,
    {
        k = k + 1;
    }
    proof {
        lemma_name_end(debug@, k as int);
    }
    String::from_str(debug.substring_char(0, k))
}

/// An optional number in decimal, or `--` when absent.
pub open spec fn line_text(l: Option<u64>) -> Seq<char> {
    match l {
        Some(n) => decimal_text(n as nat),
        None => "--"@,
    }
}

pub open spec fn issue_headers() -> Seq<Seq<char>> {
    seq!["SEVERITY"@, "LINE"@, "MIC"@, "PROBLEM"@]
}

/// An issue's row: severity, line, MIC and message, `--` standing for what is
/// absent.
pub open spec fn issue_cells(v: IssueView) -> Seq<Seq<char>> {
    seq![severity_text(v.severity), line_text(v.line), or_text(v.mic, "--"@), v.message@]
}

/// Every issue individually, or a line saying there are none.
pub open spec fn issues_text(views: Seq<IssueView>) -> Seq<Seq<char>> {
    if views.len() == 0 {
        seq!["no issues"@]
    } else {
        table_text(issue_headers(), views.map_values(|v: IssueView| issue_cells(v)))
    }
}

/// Render every issue as a table.
pub fn issues_table(views: &Vec<IssueView>) -> (out: Vec<String>)
    ensures
        texts(out@) == issues_text(views@),
{
    if views.len() == 0 {
        let out = vec![String::from_str("no issues")];
        assert(texts(out@) =~= issues_text(views@));
        return out;
    }
    let mut t = Table::new(&["SEVERITY", "LINE", "MIC", "PROBLEM"]);
    assert(t.header_text() =~= issue_headers());
    let mut i: usize = 0;
    while i < views.len()
        invariant
            i <= views@.len(),
            t.header_text() == issue_headers(),
            t.row_text() == views@.take(i as int).map_values(|v: IssueView| issue_cells(v)),
        decreases views@.len() - i,
    {
        let v = &views[i];
        let line = match v.line {
            Some(n) => decimal(n),
            None => String::from_str("--"),
        };
        let row = vec![String::from_str(severity_str(v.severity)), line, text_or(&v.mic, "--"), v.message.clone()];
        assert(texts(row@) =~= issue_cells(*v));
        assert(texts(row@).len() == row@.len());
        t.push(row);
        i = i + 1;
        assert(t.row_text() =~= views@.take(i as int).map_values(|v: IssueView| issue_cells(v)));
    }
    assert(views@.take(views@.len() as int) =~= views@);
    t.lines()
}

/// How many issues are of kind `k`.
pub open spec fn count_kind(issues: Seq<IssueView>, k: Seq<char>) -> nat
    decreases issues.len(),
{
    if issues.len() == 0 {
        0
    } else {
        count_kind(issues.drop_last(), k) + if issues.last().kind@ == k { 1nat } else { 0nat }
    }
}

/// How many issues have severity `s`.
pub open spec fn count_severity(issues: Seq<IssueView>, s: Severity) -> nat
    decreases issues.len(),
{
    if issues.len() == 0 {
        0
    } else {
        count_severity(issues.drop_last(), s) + if issues.last().severity == s { 1nat } else { 0nat }
    }
}

/// The severity of the earliest issue of kind `k`.
pub open spec fn first_severity(issues: Seq<IssueView>, k: Seq<char>) -> Option<Severity>
    decreases issues.len(),
{
    if issues.len() == 0 {
        None
    } else {
        match first_severity(issues.drop_last(), k) {
            Some(s) => Some(s),
            None => if issues.last().kind@ == k {
                Some(issues.last().severity)
            } else {
                None
            },
        }
    }
}

/// A count per issue kind.
#[derive(Debug, PartialEq, Eq)]
pub struct KindCount {
    pub kind: String,
    pub severity: Severity,
    pub count: usize,
}

/// What `mic load` reports by default.
#[derive(Debug, PartialEq, Eq)]
pub struct SummaryView {
    pub published: String,
    pub records: usize,
    pub errors: usize,
    pub warnings: usize,
    pub info: usize,
    pub pending: usize,
    pub by_kind: Vec<KindCount>,
}

/// A text's characters as integers, the order of which is the text's order.
pub open spec fn char_key(s: Seq<char>) -> Seq<i128> {
    s.map_values(|c: char| (c as u32) as i128)
}

proof fn lemma_char_key_injective(a: Seq<char>, b: Seq<char>)
    requires
        char_key(a) == char_key(b),
    ensures
        a == b,
{
    assert(char_key(a).len() == a.len());
    assert(char_key(b).len() == b.len());
    assert forall|i: int| 0 <= i < a.len() implies a[i] == b[i] by {
        assert(char_key(a)[i] == char_key(b)[i]);
        assert(char_key(a)[i] == (a[i] as u32) as i128);
        assert(char_key(b)[i] == (b[i] as u32) as i128);
        vstd::utf8::char_u32_cast(a[i], a[i] as u32);
        vstd::utf8::char_u32_cast(b[i], b[i] as u32);
    }
    assert(a =~= b);
}

/// A text's key.
pub fn text_key(s: &str) -> (k: Vec<i128>)
    ensures
        k@ == char_key(s@),
{
    let n = s.unicode_len();
    let mut k: Vec<i128> = Vec::new();
    let mut i: usize = 0;
    while i < n
        invariant
            n == s@.len(),
            i <= n,
            k@ == char_key(s@.take(i as int)),
        decreases n - i,
    {
        let c = s.get_char(i);
        k.push(c as u32 as i128);
        i = i + 1;
        assert(k@ =~= char_key(s@.take(i as int)));
    }
    assert(s@.take(n as int) =~= s@);
    k
}

/// The counts per kind, ordered by kind as text: each kind of issue appears
/// once, with how many issues are of that kind and the severity of the first.
pub open spec fn counts_by_kind(issues: Seq<IssueView>, by_kind: Seq<KindCount>) -> bool {
    &&& forall|i: int|
        0 <= i < by_kind.len() ==> (#[trigger] by_kind[i]).count == count_kind(issues, by_kind[i].kind@)
            && first_severity(issues, by_kind[i].kind@) == Some(by_kind[i].severity)
    &&& forall|i: int, j: int|
        0 <= i < j < by_kind.len() ==> lex_order(
            char_key((#[trigger] by_kind[i]).kind@),
            char_key((#[trigger] by_kind[j]).kind@),
        ) < 0
    &&& forall|q: int|
        0 <= q < issues.len() ==> exists|i: int| 0 <= i < by_kind.len() && by_kind[i].kind@ == (
        #[trigger] issues[q]).kind@
}

proof fn lemma_first_severity_some(issues: Seq<IssueView>, k: Seq<char>)
    requires
        count_kind(issues, k) > 0,
    ensures
        first_severity(issues, k) is Some,
    decreases issues.len(),
{
    if issues.len() > 0 && count_kind(issues.drop_last(), k) > 0 {
        lemma_first_severity_some(issues.drop_last(), k);
    }
}

proof fn lemma_count_zero(issues: Seq<IssueView>, k: Seq<char>)
    requires
        forall|q: int| 0 <= q < issues.len() ==> (#[trigger] issues[q]).kind@ != k,
    ensures
        count_kind(issues, k) == 0,
        first_severity(issues, k) is None,
    decreases issues.len(),
{
    if issues.len() > 0 {
        lemma_count_zero(issues.drop_last(), k);
    }
}

/// The distinct kinds of `issues`, in the order first seen, each with its
/// count and the severity of its first issue.
fn tally_kinds(issues: &Vec<IssueView>) -> (entries: Vec<KindCount>)
    requires
        issues@.len() <= usize::MAX,
    ensures
        forall|i: int|
            0 <= i < entries@.len() ==> (#[trigger] entries@[i]).count == count_kind(issues@, entries@[i].kind@)
                && first_severity(issues@, entries@[i].kind@) == Some(entries@[i].severity),
        forall|i: int, j: int| 0 <= i < j < entries@.len() ==> entries@[i].kind@ != entries@[j].kind@,
        forall|q: int|
            0 <= q < issues@.len() ==> exists|i: int| 0 <= i < entries@.len() && entries@[i].kind@ == (
            #[trigger] issues@[q]).kind@,
{
    let mut entries: Vec<KindCount> = Vec::new();
    let mut q: usize = 0;
    while q < issues.len()
        invariant
            q <= issues@.len(),
            forall|i: int|
                0 <= i < entries@.len() ==> (#[trigger] entries@[i]).count == count_kind(
                    issues@.take(q as int),
                    entries@[i].kind@,
                ) && first_severity(issues@.take(q as int), entries@[i].kind@) == Some(entries@[i].severity)
                    && entries@[i].count <= q,
            forall|i: int, j: int| 0 <= i < j < entries@.len() ==> entries@[i].kind@ != entries@[j].kind@,
            forall|p: int|
                0 <= p < q ==> exists|i: int| 0 <= i < entries@.len() && entries@[i].kind@ == (
                #[trigger] issues@[p]).kind@,
        decreases issues@.len() - q,
    {
        let issue = &issues[q];
        let ghost pre = issues@.take(q as int);
        let ghost post = issues@.take(q + 1);
        assert(post.drop_last() =~= pre);
        assert(post.last() == *issue);
        let mut found = entries.len();
        let mut i: usize = 0;
        while i < entries.len() && found == entries.len()
            invariant
                i <= entries@.len(),
                found == entries@.len() || (found < i && entries@[found as int].kind@ == issue.kind@),
                found == entries@.len() ==> forall|j: int| 0 <= j < i ==> (#[trigger] entries@[j]).kind@ != issue.kind@,
            decreases entries@.len() - i,
        {
            if same_text(entries[i].kind.as_str(), issue.kind.as_str()) {
                found = i;
            }
            i = i + 1;
        }
        let ghost before = entries@;
        if found < entries.len() {
            let count = entries[found].count + 1;
            let severity = entries[found].severity;
            let kind = entries[found].kind.clone();
            entries.set(found, KindCount { kind, severity, count });
        } else {
            proof {
                assert forall|p: int| 0 <= p < pre.len() implies (#[trigger] pre[p]).kind@ != issue.kind@ by {
                    let w = choose|w: int| 0 <= w < before.len() && before[w].kind@ == issues@[p].kind@;
                    assert(pre[p] == issues@[p]);
                }
                lemma_count_zero(pre, issue.kind@);
            }
            entries.push(KindCount { kind: issue.kind.clone(), severity: issue.severity, count: 1 });
        }
        proof {
            assert forall|p: int| 0 <= p < q + 1 implies exists|w: int|
                0 <= w < entries@.len() && entries@[w].kind@ == (#[trigger] issues@[p]).kind@ by {
                if p < q {
                    let w = choose|w: int| 0 <= w < before.len() && before[w].kind@ == issues@[p].kind@;
                    assert(entries@[w].kind@ == before[w].kind@);
                } else if found < before.len() {
                    assert(entries@[found as int].kind@ == issues@[p].kind@);
                } else {
                    assert(entries@[before.len() as int].kind@ == issues@[p].kind@);
                }
            }
            assert forall|w: int| 0 <= w < entries@.len() implies (#[trigger] entries@[w]).count == count_kind(
                post,
                entries@[w].kind@,
            ) && first_severity(post, entries@[w].kind@) == Some(entries@[w].severity) && entries@[w].count
                <= q + 1 by {
                if w < before.len() {
                    assert(entries@[w].kind@ == before[w].kind@);
                    assert(first_severity(pre, before[w].kind@) is Some);
                }
            }
        }
        q = q + 1;
    }
    assert(issues@.take(issues@.len() as int) =~= issues@);
    entries
}

/// Count the issues per kind and per severity: what `mic load` reports.
pub fn summary(published: Date, records: usize, pending: usize, issues: &Vec<IssueView>) -> (view: SummaryView)
    requires
        published.wf(),
    ensures
        view.published@ == date_text(published),
        view.records == records,
        view.pending == pending,
        view.errors == count_severity(issues@, Severity::Error),
        view.warnings == count_severity(issues@, Severity::Warning),
        view.info == count_severity(issues@, Severity::Info),
        view.errors + view.warnings + view.info == issues@.len(),
        counts_by_kind(issues@, view.by_kind@),
{
    let mut errors: usize = 0;
    let mut warnings: usize = 0;
    let mut info: usize = 0;
    let mut q: usize = 0;
    while q < issues.len()
        invariant
            q <= issues@.len(),
            errors == count_severity(issues@.take(q as int), Severity::Error),
            warnings == count_severity(issues@.take(q as int), Severity::Warning),
            info == count_severity(issues@.take(q as int), Severity::Info),
            errors + warnings + info == q,
        decreases issues@.len() - q,
    {
        assert(issues@.take(q + 1).drop_last() =~= issues@.take(q as int));
        match issues[q].severity {
            Severity::Error => errors = errors + 1,
            Severity::Warning => warnings = warnings + 1,
            Severity::Info => info = info + 1,
        }
        q = q + 1;
    }
    assert(issues@.take(issues@.len() as int) =~= issues@);
    let entries = tally_kinds(issues);
    let mut keys: Vec<Vec<i128>> = Vec::new();
    let mut i: usize = 0;
    while i < entries.len()
        invariant
            i <= entries@.len(),
            keys@.len() == i,
            forall|j: int| 0 <= j < i ==> #[trigger] keys@[j]@ == char_key(entries@[j].kind@),
        decreases entries@.len() - i,
    {
        keys.push(text_key(entries[i].kind.as_str()));
        i = i + 1;
    }
    let order = stable_order(&keys);
    let ghost kv = keys@.map_values(|k: Vec<i128>| k@);
    let mut by_kind: Vec<KindCount> = Vec::new();
    let mut k: usize = 0;
    while k < order.len()
        invariant
            is_permutation(order@, entries@.len() as int),
            k <= order@.len(),
            by_kind@.len() == k,
            forall|j: int|
                0 <= j < k ==> (#[trigger] by_kind@[j]).kind@ == entries@[order@[j] as int].kind@
                    && by_kind@[j].count == entries@[order@[j] as int].count && by_kind@[j].severity
                    == entries@[order@[j] as int].severity,
        decreases order@.len() - k,
    {
        let e = &entries[order[k]];
        by_kind.push(KindCount { kind: e.kind.clone(), severity: e.severity, count: e.count });
        k = k + 1;
    }
    proof {
        assert forall|a: int, b: int| 0 <= a < b < by_kind@.len() implies lex_order(
            char_key((#[trigger] by_kind@[a]).kind@),
            char_key((#[trigger] by_kind@[b]).kind@),
        ) < 0 by {
            let x = order@[a] as int;
            let y = order@[b] as int;
            assert(listed_before(kv, x, y));
            assert(kv[x] == char_key(entries@[x].kind@));
            assert(kv[y] == char_key(entries@[y].kind@));
            if lex_order(kv[x], kv[y]) == 0 {
                lemma_lex_order_zero_is_equal(kv[x], kv[y]);
                lemma_char_key_injective(entries@[x].kind@, entries@[y].kind@);
                if x < y {
                    assert(entries@[x].kind@ != entries@[y].kind@);
                } else {
                    assert(entries@[y].kind@ != entries@[x].kind@);
                }
            }
        }
        assert forall|p: int| 0 <= p < issues@.len() implies exists|w: int|
            0 <= w < by_kind@.len() && by_kind@[w].kind@ == (#[trigger] issues@[p]).kind@ by {
            let e = choose|e: int| 0 <= e < entries@.len() && entries@[e].kind@ == issues@[p].kind@;
            assert(order@.contains(e as usize));
            let w = choose|w: int| 0 <= w < order@.len() && order@[w] == e as usize;
            assert(by_kind@[w].kind@ == issues@[p].kind@);
        }
    }
    let text = published.to_text();
    SummaryView { published: text, records, errors, warnings, info, pending, by_kind }
}


pub open spec fn kind_headers() -> Seq<Seq<char>> {
    seq!["COUNT"@, "SEVERITY"@, "KIND"@]
}

pub open spec fn kind_cells(k: KindCount) -> Seq<Seq<char>> {
    seq![decimal_text(k.count as nat), severity_text(k.severity), k.kind@]
}

/// The summary as text: the vintage, the counts, and a table of the counts per
/// kind when there are any.
pub open spec fn summary_text(v: SummaryView) -> Seq<Seq<char>> {
    seq![
        "vintage    "@ + v.published@,
        "records    "@ + decimal_text(v.records as nat),
        "pending    "@ + decimal_text(v.pending as nat),
        "issues     "@ + decimal_text(v.errors as nat) + " error, "@ + decimal_text(v.warnings as nat)
            + " warning, "@ + decimal_text(v.info as nat) + " info"@,
    ] + if v.by_kind@.len() == 0 {
        Seq::<Seq<char>>::empty()
    } else {
        seq![Seq::<char>::empty()] + table_text(kind_headers(), v.by_kind@.map_values(|k: KindCount| kind_cells(k)))
    }
}

/// Append copies of `lines` to `out`.
pub fn push_all(out: &mut Vec<String>, lines: &Vec<String>)
    ensures
        texts(final(out)@) == texts(old(out)@) + texts(lines@),
{
    let ghost start = texts(out@);
    let mut j: usize = 0;
    while j < lines.len()
        invariant
            j <= lines@.len(),
            texts(out@) == start + texts(lines@).take(j as int),
        decreases lines@.len() - j,
    {
        let ghost prev = out@;
        let line = lines[j].clone();
        out.push(line);
        assert(texts(out@) =~= texts(prev).push(line@));
        j = j + 1;
        assert(texts(out@) =~= start + texts(lines@).take(j as int));
    }
    assert(texts(lines@).take(lines@.len() as int) =~= texts(lines@));
}

/// `label` followed by `n` in decimal.
fn labelled_number(label: &str, n: usize) -> (s: String)
    ensures
        s@ == label@ + decimal_text(n as nat),
{
    let mut s = String::from_str(label);
    let d = decimal(n as u64);
    s.append(d.as_str());
    s
}

/// Render a summary as text.
pub fn summary_lines(v: &SummaryView) -> (out: Vec<String>)
    ensures
        texts(out@) == summary_text(*v),
{
    let mut out: Vec<String> = Vec::new();
    let mut first = String::from_str("vintage    ");
    first.append(v.published.as_str());
    out.push(first);
    out.push(labelled_number("records    ", v.records));
    out.push(labelled_number("pending    ", v.pending));
    let mut issues = labelled_number("issues     ", v.errors);
    issues.append(" error, ");
    let w = decimal(v.warnings as u64);
    issues.append(w.as_str());
    issues.append(" warning, ");
    let i = decimal(v.info as u64);
    issues.append(i.as_str());
    issues.append(" info");
    out.push(issues);
    let ghost head = texts(out@);
    if v.by_kind.len() == 0 {
        assert(texts(out@) =~= summary_text(*v));
        return out;
    }
    out.push(String::new());
    let mut t = Table::new(&["COUNT", "SEVERITY", "KIND"]);
    assert(t.header_text() =~= kind_headers());
    let mut k: usize = 0;
    while k < v.by_kind.len()
        invariant
            k <= v.by_kind@.len(),
            t.header_text() == kind_headers(),
            t.row_text() == v.by_kind@.take(k as int).map_values(|c: KindCount| kind_cells(c)),
        decreases v.by_kind@.len() - k,
    {
        let c = &v.by_kind[k];
        let row = vec![decimal(c.count as u64), String::from_str(severity_str(c.severity)), c.kind.clone()];
        assert(texts(row@) =~= kind_cells(*c));
        assert(texts(row@).len() == row@.len());
        t.push(row);
        k = k + 1;
        assert(t.row_text() =~= v.by_kind@.take(k as int).map_values(|c: KindCount| kind_cells(c)));
    }
    assert(v.by_kind@.take(v.by_kind@.len() as int) =~= v.by_kind@);
    let lines = t.lines();
    push_all(&mut out, &lines);
    assert(texts(out@) =~= summary_text(*v));
    out
}

/// One field that changed between two vintages.
#[derive(Debug, PartialEq, Eq)]
pub struct FieldChangeView {
    pub field: String,
    pub old: Option<String>,
    pub new: Option<String>,
}

impl FieldChangeView {
    /// A copy of this change.
    pub fn duplicate(&self) -> (c: FieldChangeView)
        ensures
            c == *self,
    {
        FieldChangeView { field: self.field.clone(), old: copy_opt(&self.old), new: copy_opt(&self.new) }
    }
}

/// A MIC whose record changed, with each field that did.
#[derive(Debug, PartialEq, Eq)]
pub struct ChangedView {
    pub mic: String,
    pub changes: Vec<FieldChangeView>,
}

/// What changed between two vintages.
#[derive(Debug, PartialEq, Eq)]
pub struct DiffView {
    pub added: Vec<String>,
    pub removed: Vec<String>,
    pub changed: Vec<ChangedView>,
}

/// The rows for the changed fields of some MICs, in order; each old and new
/// value as `value_text` shows it.
pub open spec fn changed_rows(changed: Seq<ChangedView>, clip_values: bool) -> Seq<Seq<Seq<char>>>
    decreases changed.len(),
{
    if changed.len() == 0 {
        Seq::empty()
    } else {
        let c = changed.last();
        changed_rows(changed.drop_last(), clip_values) + c.changes@.map_values(
            |f: FieldChangeView| change_cells(c.mic@, f, clip_values),
        )
    }
}

/// A changed field's row. The table clips values to 30 characters and shows an
/// absent one as `--`; CSV keeps them whole and leaves an absent one empty.
pub open spec fn change_cells(mic: Seq<char>, f: FieldChangeView, clip_values: bool) -> Seq<Seq<char>> {
    if clip_values {
        seq!["changed"@, mic, f.field@, clipped(or_text(f.old, "--"@), 30), clipped(or_text(f.new, "--"@), 30)]
    } else {
        seq!["changed"@, mic, f.field@, or_text(f.old, Seq::empty()), or_text(f.new, Seq::empty())]
    }
}

/// The row for a MIC added or removed.
pub open spec fn membership_cells(change: Seq<char>, mic: Seq<char>) -> Seq<Seq<char>> {
    seq![change, mic, Seq::empty(), Seq::empty(), Seq::empty()]
}

/// Every row of a difference: the added MICs, the removed ones, then each
/// changed field.
pub open spec fn diff_rows(d: DiffView, clip_values: bool) -> Seq<Seq<Seq<char>>> {
    d.added@.map_values(|m: String| membership_cells("added"@, m@)) + d.removed@.map_values(
        |m: String| membership_cells("removed"@, m@),
    ) + changed_rows(d.changed@, clip_values)
}

pub open spec fn diff_headers() -> Seq<Seq<char>> {
    seq!["CHANGE"@, "MIC"@, "FIELD"@, "OLD"@, "NEW"@]
}

/// The difference as text: a count line and a table, or a line saying the
/// vintages do not differ.
pub open spec fn diff_text(d: DiffView) -> Seq<Seq<char>> {
    if d.added@.len() == 0 && d.removed@.len() == 0 && d.changed@.len() == 0 {
        seq!["no differences"@]
    } else {
        seq![
            decimal_text(d.added@.len()) + " added, "@ + decimal_text(d.removed@.len()) + " removed, "@
                + decimal_text(d.changed@.len()) + " changed"@,
            Seq::<char>::empty(),
        ] + table_text(diff_headers(), diff_rows(d, true))
    }
}

/// A membership row as cells.
fn membership_row(change: &str, mic: &String) -> (row: Vec<String>)
    ensures
        texts(row@) == membership_cells(change@, mic@),
{
    let row = vec![String::from_str(change), mic.clone(), String::new(), String::new(), String::new()];
    assert(texts(row@) =~= membership_cells(change@, mic@));
    row
}

/// A changed field's row as cells.
fn change_row(mic: &String, f: &FieldChangeView, clip_values: bool) -> (row: Vec<String>)
    ensures
        texts(row@) == change_cells(mic@, *f, clip_values),
{
    let row = if clip_values {
        let old = text_or(&f.old, "--");
        let new = text_or(&f.new, "--");
        vec![
            String::from_str("changed"),
            mic.clone(),
            f.field.clone(),
            clip(old.as_str(), 30),
            clip(new.as_str(), 30),
        ]
    } else {
        vec![String::from_str("changed"), mic.clone(), f.field.clone(), text_or(&f.old, ""), text_or(&f.new, "")]
    };
    proof {
        reveal_strlit("");
        assert(""@ =~= Seq::<char>::empty());
    }
    assert(texts(row@) =~= change_cells(mic@, *f, clip_values));
    row
}

/// All rows of a difference, as cells.
pub fn diff_cells(d: &DiffView, clip_values: bool) -> (rows: Vec<Vec<String>>)
    ensures
        rows@.map_values(|r: Vec<String>| texts(r@)) == diff_rows(*d, clip_values),
        forall|k: int| 0 <= k < rows@.len() ==> (#[trigger] rows@[k])@.len() == 5,
{
    let mut rows: Vec<Vec<String>> = Vec::new();
    let mut i: usize = 0;
    while i < d.added.len()
        invariant
            i <= d.added@.len(),
            rows@.map_values(|r: Vec<String>| texts(r@)) == d.added@.take(i as int).map_values(
                |m: String| membership_cells("added"@, m@),
            ),
            forall|k: int| 0 <= k < rows@.len() ==> (#[trigger] rows@[k])@.len() == 5,
        decreases d.added@.len() - i,
    {
        let row = membership_row("added", &d.added[i]);
        assert(texts(row@).len() == row@.len());
        let ghost prev = rows@;
        rows.push(row);
        assert(rows@.map_values(|r: Vec<String>| texts(r@)) =~= prev.map_values(|r: Vec<String>| texts(r@)).push(texts(row@)));
        assert(d.added@.take(i + 1) =~= d.added@.take(i as int).push(d.added@[i as int]));
        i = i + 1;
        assert(rows@.map_values(|r: Vec<String>| texts(r@)) =~= d.added@.take(i as int).map_values(
            |m: String| membership_cells("added"@, m@),
        ));
    }
    assert(d.added@.take(d.added@.len() as int) =~= d.added@);
    let ghost after_added = rows@.map_values(|r: Vec<String>| texts(r@));
    let mut i: usize = 0;
    while i < d.removed.len()
        invariant
            i <= d.removed@.len(),
            rows@.map_values(|r: Vec<String>| texts(r@)) == after_added + d.removed@.take(i as int).map_values(
                |m: String| membership_cells("removed"@, m@),
            ),
            forall|k: int| 0 <= k < rows@.len() ==> (#[trigger] rows@[k])@.len() == 5,
        decreases d.removed@.len() - i,
    {
        let row = membership_row("removed", &d.removed[i]);
        assert(texts(row@).len() == row@.len());
        let ghost prev = rows@;
        rows.push(row);
        assert(rows@.map_values(|r: Vec<String>| texts(r@)) =~= prev.map_values(|r: Vec<String>| texts(r@)).push(texts(row@)));
        assert(d.removed@.take(i + 1) =~= d.removed@.take(i as int).push(d.removed@[i as int]));
        i = i + 1;
        assert(rows@.map_values(|r: Vec<String>| texts(r@)) =~= after_added + d.removed@.take(i as int).map_values(
            |m: String| membership_cells("removed"@, m@),
        ));
    }
    assert(d.removed@.take(d.removed@.len() as int) =~= d.removed@);
    let ghost after_removed = rows@.map_values(|r: Vec<String>| texts(r@));
    let mut c: usize = 0;
    while c < d.changed.len()
        invariant
            c <= d.changed@.len(),
            rows@.map_values(|r: Vec<String>| texts(r@)) == after_removed + changed_rows(
                d.changed@.take(c as int),
                clip_values,
            ),
            forall|k: int| 0 <= k < rows@.len() ==> (#[trigger] rows@[k])@.len() == 5,
        decreases d.changed@.len() - c,
    {
        let ch = &d.changed[c];
        assert(d.changed@.take(c + 1).drop_last() =~= d.changed@.take(c as int));
        let ghost base = rows@.map_values(|r: Vec<String>| texts(r@));
        let mut f: usize = 0;
        while f < ch.changes.len()
            invariant
                f <= ch.changes@.len(),
                rows@.map_values(|r: Vec<String>| texts(r@)) == base + ch.changes@.take(f as int).map_values(
                    |x: FieldChangeView| change_cells(ch.mic@, x, clip_values),
                ),
                forall|k: int| 0 <= k < rows@.len() ==> (#[trigger] rows@[k])@.len() == 5,
            decreases ch.changes@.len() - f,
        {
            let row = change_row(&ch.mic, &ch.changes[f], clip_values);
            assert(texts(row@).len() == row@.len());
            let ghost prev = rows@;
            rows.push(row);
            assert(rows@.map_values(|r: Vec<String>| texts(r@)) =~= prev.map_values(|r: Vec<String>| texts(r@)).push(texts(row@)));
            assert(ch.changes@.take(f + 1) =~= ch.changes@.take(f as int).push(ch.changes@[f as int]));
            f = f + 1;
            assert(rows@.map_values(|r: Vec<String>| texts(r@)) =~= base + ch.changes@.take(f as int).map_values(
                |x: FieldChangeView| change_cells(ch.mic@, x, clip_values),
            ));
        }
        assert(ch.changes@.take(ch.changes@.len() as int) =~= ch.changes@);
        c = c + 1;
        assert(rows@.map_values(|r: Vec<String>| texts(r@)) =~= after_removed + changed_rows(
            d.changed@.take(c as int),
            clip_values,
        ));
    }
    assert(d.changed@.take(d.changed@.len() as int) =~= d.changed@);
    assert(rows@.map_values(|r: Vec<String>| texts(r@)) =~= diff_rows(*d, clip_values));
    rows
}

/// Render a difference as text.
pub fn diff_lines(d: &DiffView) -> (out: Vec<String>)
    ensures
        texts(out@) == diff_text(*d),
{
    if d.added.len() == 0 && d.removed.len() == 0 && d.changed.len() == 0 {
        let out = vec![String::from_str("no differences")];
        assert(texts(out@) =~= diff_text(*d));
        return out;
    }
    let mut head = labelled_number("", d.added.len());
    proof {
        reveal_strlit("");
        assert(""@ + decimal_text(d.added@.len()) =~= decimal_text(d.added@.len()));
    }
    head.append(" added, ");
    let r = decimal(d.removed.len() as u64);
    head.append(r.as_str());
    head.append(" removed, ");
    let c = decimal(d.changed.len() as u64);
    head.append(c.as_str());
    head.append(" changed");
    let mut out: Vec<String> = vec![head, String::new()];
    let rows = diff_cells(d, true);
    let mut t = Table::new(&["CHANGE", "MIC", "FIELD", "OLD", "NEW"]);
    assert(t.header_text() =~= diff_headers());
    let mut k: usize = 0;
    while k < rows.len()
        invariant
            k <= rows@.len(),
            t.header_text() == diff_headers(),
            forall|q: int| 0 <= q < rows@.len() ==> (#[trigger] rows@[q])@.len() == 5,
            t.row_text() == rows@.take(k as int).map_values(|r: Vec<String>| texts(r@)),
        decreases rows@.len() - k,
    {
        let mut row: Vec<String> = Vec::new();
        let mut j: usize = 0;
        while j < rows[k].len()
            invariant
                k < rows@.len(),
                j <= rows@[k as int]@.len(),
                texts(row@) == texts(rows@[k as int]@).take(j as int),
            decreases rows@[k as int]@.len() - j,
        {
            let ghost prev = row@;
            let cell = rows[k][j].clone();
            row.push(cell);
            assert(texts(row@) =~= texts(prev).push(cell@));
            j = j + 1;
            assert(texts(row@) =~= texts(rows@[k as int]@).take(j as int));
        }
        assert(texts(rows@[k as int]@).take(j as int) =~= texts(rows@[k as int]@));
        assert(texts(row@).len() == row@.len());
        t.push(row);
        k = k + 1;
        assert(t.row_text() =~= rows@.take(k as int).map_values(|r: Vec<String>| texts(r@)));
    }
    assert(rows@.take(rows@.len() as int) =~= rows@);
    let lines = t.lines();
    push_all(&mut out, &lines);
    assert(texts(out@) =~= diff_text(*d));
    out
}

/// One line of a streamed difference: an affected MIC and how it changed.
#[derive(Debug, PartialEq, Eq)]
pub struct DiffRow {
    pub change: String,
    pub mic: String,
    pub fields: Option<Vec<FieldChangeView>>,
}

/// The streamed difference: one row per added, removed, then changed MIC, the
/// changed ones carrying their fields.
pub open spec fn diff_row_ok(d: DiffView, rows: Seq<DiffRow>) -> bool {
    let a = d.added@.len();
    let r = d.removed@.len();
    &&& rows.len() == a + r + d.changed@.len()
    &&& forall|k: int|
        0 <= k < a ==> (#[trigger] rows[k]).change@ == "added"@ && rows[k].mic@ == d.added@[k]@ && rows[k].fields
            is None
    &&& forall|k: int|
        0 <= k < r ==> (#[trigger] rows[a + k]).change@ == "removed"@ && rows[a + k].mic@ == d.removed@[k]@
            && rows[a + k].fields is None
    &&& forall|k: int|
        0 <= k < d.changed@.len() ==> (#[trigger] rows[a + r + k]).change@ == "changed"@ && rows[a + r
            + k].mic@ == d.changed@[k].mic@ && (rows[a + r + k].fields matches Some(f) && f@
            == d.changed@[k].changes@)
}

fn copy_changes(v: &Vec<FieldChangeView>) -> (c: Vec<FieldChangeView>)
    ensures
        c@ == v@,
{
    let mut c: Vec<FieldChangeView> = Vec::new();
    let mut i: usize = 0;
    while i < v.len()
        invariant
            i <= v@.len(),
            c@ == v@.take(i as int),
        decreases v@.len() - i,
    {
        c.push(v[i].duplicate());
        i = i + 1;
        assert(c@ =~= v@.take(i as int));
    }
    assert(v@.take(v@.len() as int) =~= v@);
    c
}

/// The rows a difference streams as, one per affected MIC.
pub fn diff_stream(d: &DiffView) -> (rows: Vec<DiffRow>)
    ensures
        diff_row_ok(*d, rows@),
{
    let mut rows: Vec<DiffRow> = Vec::new();
    let mut i: usize = 0;
    while i < d.added.len()
        invariant
            i <= d.added@.len(),
            rows@.len() == i,
            forall|k: int|
                0 <= k < i ==> (#[trigger] rows@[k]).change@ == "added"@ && rows@[k].mic@ == d.added@[k]@
                    && rows@[k].fields is None,
        decreases d.added@.len() - i,
    {
        rows.push(DiffRow { change: String::from_str("added"), mic: d.added[i].clone(), fields: None });
        i = i + 1;
    }
    let a = d.added.len();
    let mut i: usize = 0;
    while i < d.removed.len()
        invariant
            a == d.added@.len(),
            i <= d.removed@.len(),
            rows@.len() == a + i,
            forall|k: int|
                0 <= k < a ==> (#[trigger] rows@[k]).change@ == "added"@ && rows@[k].mic@ == d.added@[k]@
                    && rows@[k].fields is None,
            forall|k: int|
                0 <= k < i ==> (#[trigger] rows@[a + k]).change@ == "removed"@ && rows@[a + k].mic@
                    == d.removed@[k]@ && rows@[a + k].fields is None,
        decreases d.removed@.len() - i,
    {
        rows.push(DiffRow { change: String::from_str("removed"), mic: d.removed[i].clone(), fields: None });
        i = i + 1;
    }
    let r = d.removed.len();
    let mut i: usize = 0;
    while i < d.changed.len()
        invariant
            a == d.added@.len(),
            r == d.removed@.len(),
            i <= d.changed@.len(),
            rows@.len() == a + r + i,
            forall|k: int|
                0 <= k < a ==> (#[trigger] rows@[k]).change@ == "added"@ && rows@[k].mic@ == d.added@[k]@
                    && rows@[k].fields is None,
            forall|k: int|
                0 <= k < r ==> (#[trigger] rows@[a + k]).change@ == "removed"@ && rows@[a + k].mic@
                    == d.removed@[k]@ && rows@[a + k].fields is None,
            forall|k: int|
                0 <= k < i ==> (#[trigger] rows@[a + r + k]).change@ == "changed"@ && rows@[a + r
                    + k].mic@ == d.changed@[k].mic@ && (rows@[a + r + k].fields matches Some(f) && f@
                    == d.changed@[k].changes@),
        decreases d.changed@.len() - i,
    {
        let c = &d.changed[i];
        rows.push(
            DiffRow { change: String::from_str("changed"), mic: c.mic.clone(), fields: Some(copy_changes(&c.changes)) },
        );
        i = i + 1;
    }
    rows
}


/// How many field changes a list of changed MICs holds.
pub open spec fn field_change_count(changed: Seq<ChangedView>) -> nat
    decreases changed.len(),
{
    if changed.len() == 0 {
        0
    } else {
        field_change_count(changed.drop_last()) + changed.last().changes@.len()
    }
}

proof fn lemma_changed_rows_len(changed: Seq<ChangedView>, clip_values: bool)
    ensures
        changed_rows(changed, clip_values).len() == field_change_count(changed),
    decreases changed.len(),
{
    if changed.len() > 0 {
        lemma_changed_rows_len(changed.drop_last(), clip_values);
    }
}

/// A difference reads "no differences" exactly when no MIC was added, removed
/// or changed; otherwise it is a count line, a blank line, the table's header
/// and rule, and one row for each added MIC, each removed MIC and each changed
/// field.
pub proof fn a_difference_shows_every_change(d: DiffView)
    ensures
        d.added@.len() == 0 && d.removed@.len() == 0 && d.changed@.len() == 0 ==> diff_text(d) == seq![
            "no differences"@,
        ],
        d.added@.len() > 0 || d.removed@.len() > 0 || d.changed@.len() > 0 ==> diff_text(d).len() == 4
            + d.added@.len() + d.removed@.len() + field_change_count(d.changed@),
        d.added@.len() > 0 || d.removed@.len() > 0 || d.changed@.len() > 0 ==> diff_text(d)[1] == Seq::<
            char,
        >::empty(),
{
    lemma_changed_rows_len(d.changed@, true);
}

/// Issues read "no issues" exactly when there are none; otherwise the table
/// has a header, a rule and one row for each issue, whatever its severity.
pub proof fn every_issue_is_shown(views: Seq<IssueView>)
    ensures
        views.len() == 0 ==> issues_text(views) == seq!["no issues"@],
        views.len() > 0 ==> issues_text(views).len() == views.len() + 2,
{
}

} // verus!
