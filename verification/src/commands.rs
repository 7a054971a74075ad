//! What each `mic` command decides: which records it shows, in which order,
//! what it reports alongside, and how it exits.

use vstd::prelude::*;
use crate::codes::{
    category_meant, code_shaped, parse_category, parse_country_code, parse_mic_code, parse_status_code,
    status_codes, upper_text,
};
use crate::date::{Date, DateError, date_text, jiff_date_parse, parse_date};
use crate::load::PublishedSource;
use crate::order::{is_permutation, lex_order, listed_before, stable_order};
use crate::output::Format;
use crate::render::{RecordView, char_key, detail_text, push_all, record_detail_lines, records_table, records_text, text_key, texts};
use crate::source::{Vintage, file_name_of, file_name_range};
use crate::table::{Table, table_text};
use crate::text::{decimal, decimal_text, same_text, trim};

verus! {

/// Success.
pub const EXIT_OK: i32 = 0;
/// A usage error, or the thing asked for does not exist.
pub const EXIT_USAGE: i32 = 1;
/// The file loaded, but held records that could not be used.
pub const EXIT_LOAD_ERRORS: i32 = 2;
/// The download failed.
pub const EXIT_NETWORK: i32 = 3;

/// How a command writes its results.
#[derive(Clone, Copy, Debug, PartialEq, Eq, Structural)]
pub struct Ctx {
    pub format: Format,
    pub quiet: bool,
}

/// The exit code of a command that read registries: unusable rows are exit 2,
/// since the load still produced a usable registry and the rows are reported.
pub fn load_exit_code(has_errors: bool) -> (code: i32)
    ensures
        code == if has_errors { EXIT_LOAD_ERRORS } else { EXIT_OK },
{
    if has_errors {
        EXIT_LOAD_ERRORS
    } else {
        EXIT_OK
    }
}

/// An optional `--published` value, read as a date.
pub fn opt_date(s: Option<&str>) -> (r: Result<Option<Date>, DateError>)
    ensures
        match s {
            None => r == Ok::<Option<Date>, DateError>(None),
            Some(t) => match jiff_date_parse(t@) {
                Some(d) => r == Ok::<Option<Date>, DateError>(Some(d)),
                None => r matches Err(DateError::NotADate(x)) && x@ == t@,
            },
        },
{
    match s {
        None => Ok(None),
        Some(t) => match parse_date(t) {
            Ok(d) => Ok(Some(d)),
            Err(e) => Err(e),
        },
    }
}

/// One vintage of the registry, as its records' views in file order.
#[derive(Debug, PartialEq, Eq)]
pub struct RegistryView {
    pub records: Vec<RecordView>,
    pub published: Date,
    pub source: PublishedSource,
}

/// The kind code of an operating MIC.
pub open spec fn operating_kind() -> Seq<char> {
    seq!['O', 'P', 'R', 'T']
}

/// The kind code of a segment.
pub open spec fn segment_kind() -> Seq<char> {
    seq!['S', 'G', 'M', 'T']
}

/// The position of the first record with this MIC.
pub open spec fn first_with_mic(records: Seq<RecordView>, code: Seq<char>, i: int) -> bool {
    &&& 0 <= i < records.len()
    &&& records[i].mic@ == code
    &&& forall|j: int| 0 <= j < i ==> (#[trigger] records[j]).mic@ != code
}

/// The record with this MIC, by position.
pub fn find_mic(reg: &RegistryView, code: &str) -> (r: Option<usize>)
    ensures
        match r {
            Some(i) => first_with_mic(reg.records@, code@, i as int),
            None => forall|j: int| 0 <= j < reg.records@.len() ==> (#[trigger] reg.records@[j]).mic@ != code@,
        },
{
    let mut i: usize = 0;
    while i < reg.records.len()
        invariant
            i <= reg.records@.len(),
            forall|j: int| 0 <= j < i ==> (#[trigger] reg.records@[j]).mic@ != code@,
        decreases reg.records@.len() - i,
    {
        if same_text(reg.records[i].mic.as_str(), code) {
            return Some(i);
        }
        i = i + 1;
    }
    None
}

/// A record is a segment operating under `code`.
pub open spec fn is_segment_of(v: RecordView, code: Seq<char>) -> bool {
    v.kind@ == segment_kind() && v.operating_mic@ == code
}

/// `out` lists, in file order, exactly the records that are segments of `code`.
pub open spec fn segments_listed(records: Seq<RecordView>, code: Seq<char>, out: Seq<RecordView>) -> bool {
    exists|ix: Seq<usize>|
        {
            &&& ix.len() == out.len()
            &&& forall|k: int| 0 <= k < ix.len() ==> #[trigger] ix[k] < records.len()
            &&& forall|a: int, b: int| 0 <= a < b < ix.len() ==> ix[a] < ix[b]
            &&& forall|k: int| 0 <= k < ix.len() ==> out[k] == records[#[trigger] ix[k] as int]
            &&& forall|k: int| 0 <= k < ix.len() ==> is_segment_of(records[#[trigger] ix[k] as int], code)
            &&& forall|j: int| 0 <= j < records.len() && is_segment_of(#[trigger] records[j], code) ==> ix.contains(j as usize)
        }
}

fn is_kind(v: &RecordView, kind: &str) -> (r: bool)
    ensures
        r == (v.kind@ == kind@),
{
    same_text(v.kind.as_str(), kind)
}

/// The segments operating under `code`, in file order.
pub fn segments_of(reg: &RegistryView, code: &str) -> (out: Vec<RecordView>)
    ensures
        segments_listed(reg.records@, code@, out@),
{
    let ghost rs = reg.records@;
    let mut out: Vec<RecordView> = Vec::new();
    let ghost mut ix: Seq<usize> = Seq::empty();
    let mut i: usize = 0;
    while i < reg.records.len()
        invariant
            rs == reg.records@,
            i <= rs.len(),
            ix.len() == out@.len(),
            forall|k: int| 0 <= k < ix.len() ==> #[trigger] ix[k] < i,
            forall|a: int, b: int| 0 <= a < b < ix.len() ==> ix[a] < ix[b],
            forall|k: int| 0 <= k < ix.len() ==> out@[k] == rs[#[trigger] ix[k] as int],
            forall|k: int| 0 <= k < ix.len() ==> is_segment_of(rs[#[trigger] ix[k] as int], code@),
            forall|j: int| 0 <= j < i && is_segment_of(#[trigger] rs[j], code@) ==> ix.contains(j as usize),
        decreases rs.len() - i,
    {
        let v = &reg.records[i];
        proof {
            reveal_strlit("SGMT");
            assert("SGMT"@ =~= segment_kind());
        }
        if is_kind(v, "SGMT") && same_text(v.operating_mic.as_str(), code) {
            out.push(v.duplicate());
            proof {
                let old_ix = ix;
                ix = ix.push(i);
                assert forall|j: int| 0 <= j < i + 1 && is_segment_of(#[trigger] rs[j], code@) implies ix.contains(
                    j as usize,
                ) by {
                    if j < i {
                        let w = choose|w: int| 0 <= w < old_ix.len() && old_ix[w] == j as usize;
                        assert(ix[w] == j as usize);
                    } else {
                        assert(ix[ix.len() - 1] == i);
                    }
                }
            }
        } else {
            proof {
                assert forall|j: int| 0 <= j < i + 1 && is_segment_of(#[trigger] rs[j], code@) implies ix.contains(
                    j as usize,
                ) by {
                    if j == i {
                        assert(!is_segment_of(rs[j], code@));
                    }
                }
            }
        }
        i = i + 1;
    }
    proof {
        assert(segments_listed(rs, code@, out@)) by {
            assert(ix.len() == out@.len());
        }
    }
    out
}


/// The filters of `mic list`, as given on the command line.
#[derive(Debug, PartialEq, Eq)]
pub struct ListFilters {
    pub country: Option<String>,
    pub status: Option<String>,
    pub category: Option<String>,
    pub operating: bool,
    pub pending: bool,
    pub limit: Option<usize>,
}

/// A filter value that does not name what it should; the value as given.
#[derive(Debug, PartialEq, Eq)]
pub enum ListError {
    /// Not an ISO 3166-1 alpha-2 code.
    Country(String),
    /// Not a status (active, updated, expired).
    Status(String),
    /// Not a market category code or name.
    Category(String),
}

/// The filters of `mic list`, checked: codes in the registry's spelling.
#[derive(Debug, PartialEq, Eq)]
pub struct Selection {
    pub country: Option<String>,
    pub status: Option<String>,
    pub category: Option<String>,
    pub operating: bool,
    pub pending: bool,
    pub limit: Option<usize>,
}

pub open spec fn opt_text_eq(a: Option<String>, b: Option<Seq<char>>) -> bool {
    match (a, b) {
        (Some(x), Some(y)) => x@ == y,
        (None, None) => true,
        _ => false,
    }
}

/// What the filters mean once checked, or which one is wrong (they are checked
/// in order: country, status, category).
pub open spec fn filters_checked(f: ListFilters, r: Result<Selection, ListError>) -> bool {
    let country_ok = f.country matches Some(c) ==> code_shaped(c@, 2, true);
    let status_ok = f.status matches Some(s) ==> status_codes().contains(upper_text(trim(s@)));
    let category_ok = f.category matches Some(c) ==> category_meant(c@) is Some;
    match r {
        Ok(sel) => {
            &&& country_ok && status_ok && category_ok
            &&& opt_text_eq(sel.country, match f.country { Some(c) => Some(upper_text(c@)), None => None })
            &&& opt_text_eq(sel.status, match f.status { Some(s) => Some(upper_text(trim(s@))), None => None })
            &&& opt_text_eq(sel.category, match f.category { Some(c) => category_meant(c@), None => None })
            &&& sel.operating == f.operating && sel.pending == f.pending && sel.limit == f.limit
        },
        Err(ListError::Country(c)) => !country_ok && (f.country matches Some(x) && x@ == c@),
        Err(ListError::Status(s)) => country_ok && !status_ok && (f.status matches Some(x) && x@ == s@),
        Err(ListError::Category(c)) => country_ok && status_ok && !category_ok && (f.category matches Some(x)
            && x@ == c@),
    }
}

/// Check the filters of `mic list` before any registry is read. A category
/// may be given by code or by ISO's full name.
pub fn parse_filters(f: &ListFilters) -> (r: Result<Selection, ListError>)
    ensures
        filters_checked(*f, r),
{
    let country = match &f.country {
        Some(c) => match parse_country_code(c.as_str()) {
            Some(code) => Some(code),
            None => return Err(ListError::Country(c.clone())),
        },
        None => None,
    };
    let status = match &f.status {
        Some(s) => match parse_status_code(s.as_str()) {
            Some(code) => Some(code),
            None => return Err(ListError::Status(s.clone())),
        },
        None => None,
    };
    let category = match &f.category {
        Some(c) => match parse_category(c.as_str()) {
            Some(code) => Some(code),
            None => return Err(ListError::Category(c.clone())),
        },
        None => None,
    };
    Ok(Selection { country, status, category, operating: f.operating, pending: f.pending, limit: f.limit })
}

/// A record passes the selection: the country, status and category it names
/// (when it names one), operating MICs only if asked, pending records only if
/// asked.
pub open spec fn selected(sel: Selection, v: RecordView) -> bool {
    &&& (sel.country matches Some(c) ==> (v.country matches Some(vc) && vc@ == c@))
    &&& (sel.status matches Some(s) ==> v.status@ == s@)
    &&& (sel.category matches Some(c) ==> v.category@ == c@)
    &&& (sel.operating ==> v.kind@ == operating_kind())
    &&& (sel.pending ==> v.pending)
}

fn passes(sel: &Selection, v: &RecordView) -> (r: bool)
    ensures
        r == selected(*sel, *v),
{
    if let Some(c) = &sel.country {
        match &v.country {
            Some(vc) => if !same_text(vc.as_str(), c.as_str()) {
                return false;
            },
            None => return false,
        }
    }
    if let Some(st) = &sel.status {
        if !same_text(v.status.as_str(), st.as_str()) {
            return false;
        }
    }
    if let Some(c) = &sel.category {
        if !same_text(v.category.as_str(), c.as_str()) {
            return false;
        }
    }
    proof {
        reveal_strlit("OPRT");
        assert("OPRT"@ =~= operating_kind());
    }
    if sel.operating && !same_text(v.kind.as_str(), "OPRT") {
        return false;
    }
    if sel.pending && !v.pending {
        return false;
    }
    true
}

/// What `mic list` shows: the matching records and how many matched.
#[derive(Debug, PartialEq, Eq)]
pub struct Listing {
    pub records: Vec<RecordView>,
    pub total: usize,
}

/// `ix` lists every record that passes the selection, once, ordered by MIC
/// (file order between equal MICs).
pub open spec fn listing_order(records: Seq<RecordView>, sel: Selection, ix: Seq<usize>) -> bool {
    &&& forall|k: int| 0 <= k < ix.len() ==> #[trigger] ix[k] < records.len() && selected(sel, records[ix[k] as int])
    &&& forall|a: int, b: int| 0 <= a < b < ix.len() ==> ix[a] != ix[b]
    &&& forall|j: int| 0 <= j < records.len() && selected(sel, #[trigger] records[j]) ==> ix.contains(j as usize)
    &&& forall|a: int, b: int|
        0 <= a < b < ix.len() ==> {
            let o = lex_order(char_key(records[ix[a] as int].mic@), char_key(records[ix[b] as int].mic@));
            o < 0 || (o == 0 && #[trigger] ix[a] < #[trigger] ix[b])
        }
}

/// Select records: filter, order by MIC, and cap at `limit`, keeping the count
/// of all matches.
pub fn select(reg: &RegistryView, sel: &Selection) -> (l: Listing)
    ensures
        exists|ix: Seq<usize>|
            {
                &&& listing_order(reg.records@, *sel, ix)
                &&& l.total == ix.len()
                &&& l.records@.len() == match sel.limit {
                    Some(n) => if n < ix.len() { n as int } else { ix.len() as int },
                    None => ix.len() as int,
                }
                &&& forall|k: int| 0 <= k < l.records@.len() ==> l.records@[k] == reg.records@[#[trigger] ix[k] as int]
            },
{
    let ghost rs = reg.records@;
    let mut m: Vec<usize> = Vec::new();
    let mut i: usize = 0;
    while i < reg.records.len()
        invariant
            rs == reg.records@,
            i <= rs.len(),
            forall|k: int| 0 <= k < m@.len() ==> #[trigger] m@[k] < i && selected(*sel, rs[m@[k] as int]),
            forall|a: int, b: int| 0 <= a < b < m@.len() ==> m@[a] < m@[b],
            forall|j: int| 0 <= j < i && selected(*sel, #[trigger] rs[j]) ==> m@.contains(j as usize),
        decreases rs.len() - i,
    {
        if passes(sel, &reg.records[i]) {
            let ghost old_m = m@;
            m.push(i);
            proof {
                assert forall|j: int| 0 <= j < i + 1 && selected(*sel, #[trigger] rs[j]) implies m@.contains(
                    j as usize,
                ) by {
                    if j < i {
                        let w = choose|w: int| 0 <= w < old_m.len() && old_m[w] == j as usize;
                        assert(m@[w] == j as usize);
                    } else {
                        assert(m@[m@.len() - 1] == i);
                    }
                }
            }
        }
        i = i + 1;
    }
    let mut keys: Vec<Vec<i128>> = Vec::new();
    let mut k: usize = 0;
    while k < m.len()
        invariant
            rs == reg.records@,
            forall|q: int| 0 <= q < m@.len() ==> #[trigger] m@[q] < rs.len(),
            k <= m@.len(),
            keys@.len() == k,
            forall|q: int| 0 <= q < k ==> #[trigger] keys@[q]@ == char_key(rs[m@[q] as int].mic@),
        decreases m@.len() - k,
    {
        keys.push(text_key(reg.records[m[k]].mic.as_str()));
        k = k + 1;
    }
    let order = stable_order(&keys);
    let ghost kv = keys@.map_values(|k: Vec<i128>| k@);
    let ghost ix = Seq::new(order@.len(), |q: int| m@[order@[q] as int]);
    let total = m.len();
    let cap = match sel.limit {
        Some(n) => if n < total {
            n
        } else {
            total
        },
        None => total,
    };
    let mut records: Vec<RecordView> = Vec::new();
    let mut q: usize = 0;
    while q < cap
        invariant
            rs == reg.records@,
            is_permutation(order@, m@.len() as int),
            forall|w: int| 0 <= w < m@.len() ==> #[trigger] m@[w] < rs.len(),
            ix == Seq::new(order@.len(), |q: int| m@[order@[q] as int]),
            cap <= m@.len(),
            q <= cap,
            records@.len() == q,
            forall|w: int| 0 <= w < q ==> records@[w] == rs[#[trigger] ix[w] as int],
        decreases cap - q,
    {
        records.push(reg.records[m[order[q]]].duplicate());
        q = q + 1;
    }
    proof {
        assert forall|a: int, b: int| 0 <= a < b < ix.len() implies ix[a] != ix[b] by {
            assert(order@[a] != order@[b]);
            if order@[a] < order@[b] {
                assert(m@[order@[a] as int] < m@[order@[b] as int]);
            } else {
                assert(m@[order@[b] as int] < m@[order@[a] as int]);
            }
        }
        assert forall|j: int| 0 <= j < rs.len() && selected(*sel, #[trigger] rs[j]) implies ix.contains(j as usize) by {
            let w = choose|w: int| 0 <= w < m@.len() && m@[w] == j as usize;
            assert(order@.contains(w as usize));
            let z = choose|z: int| 0 <= z < order@.len() && order@[z] == w as usize;
            assert(ix[z] == j as usize);
        }
        assert forall|a: int, b: int| 0 <= a < b < ix.len() implies {
            let o = lex_order(char_key(rs[ix[a] as int].mic@), char_key(rs[ix[b] as int].mic@));
            o < 0 || (o == 0 && #[trigger] ix[a] < #[trigger] ix[b])
        } by {
            let x = order@[a] as int;
            let y = order@[b] as int;
            assert(listed_before(kv, x, y));
            assert(kv[x] == char_key(rs[m@[x] as int].mic@));
            assert(kv[y] == char_key(rs[m@[y] as int].mic@));
            if x < y {
                assert(m@[x] < m@[y]);
            }
        }
        assert(listing_order(rs, *sel, ix));
    }
    Listing { records, total }
}

/// Every filter of `mic list` applies at once: each listed record has the
/// country, status and category asked for, is an operating MIC when only those
/// were asked for, and is pending when only pending records were asked for;
/// and every record that meets all of them is listed.
pub proof fn a_listing_meets_every_filter(records: Seq<RecordView>, sel: Selection, ix: Seq<usize>)
    requires
        listing_order(records, sel, ix),
    ensures
        forall|k: int|
            0 <= k < ix.len() ==> {
                &&& (sel.country matches Some(c) ==> (records[#[trigger] ix[k] as int].country matches Some(vc)
                    && vc@ == c@))
                &&& (sel.status matches Some(s) ==> records[ix[k] as int].status@ == s@)
                &&& (sel.category matches Some(c) ==> records[ix[k] as int].category@ == c@)
                &&& (sel.operating ==> records[ix[k] as int].kind@ == seq!['O', 'P', 'R', 'T'])
                &&& (sel.pending ==> records[ix[k] as int].pending)
            },
        forall|j: int|
            0 <= j < records.len() && (sel.country matches Some(c) ==> (#[trigger] records[j].country matches Some(
                vc,
            ) && vc@ == c@)) && (sel.status matches Some(s) ==> records[j].status@ == s@) && (
            sel.category matches Some(c) ==> records[j].category@ == c@) && (sel.operating
                ==> records[j].kind@ == seq!['O', 'P', 'R', 'T']) && (sel.pending ==> records[j].pending)
                ==> ix.contains(j as usize),
{
    assert forall|k: int| 0 <= k < ix.len() implies {
        &&& (sel.country matches Some(c) ==> (records[#[trigger] ix[k] as int].country matches Some(vc) && vc@
            == c@))
        &&& (sel.status matches Some(s) ==> records[ix[k] as int].status@ == s@)
        &&& (sel.category matches Some(c) ==> records[ix[k] as int].category@ == c@)
        &&& (sel.operating ==> records[ix[k] as int].kind@ == seq!['O', 'P', 'R', 'T'])
        &&& (sel.pending ==> records[ix[k] as int].pending)
    } by {
        assert(selected(sel, records[ix[k] as int]));
    }
    assert forall|j: int|
        0 <= j < records.len() && (sel.country matches Some(c) ==> (#[trigger] records[j].country matches Some(
            vc,
        ) && vc@ == c@)) && (sel.status matches Some(s) ==> records[j].status@ == s@) && (
        sel.category matches Some(c) ==> records[j].category@ == c@) && (sel.operating
            ==> records[j].kind@ == seq!['O', 'P', 'R', 'T']) && (sel.pending ==> records[j].pending) implies ix.contains(
        j as usize,
    ) by {
        assert(selected(sel, records[j]));
    }
}

/// `mic list`: check the filters, then select from the registry.
pub fn list(reg: &RegistryView, f: &ListFilters) -> (r: Result<Listing, ListError>)
    ensures
        match r {
            Ok(l) => exists|sel: Selection|
                filters_checked(*f, Ok(sel)) && exists|ix: Seq<usize>|
                    {
                        &&& listing_order(reg.records@, sel, ix)
                        &&& l.total == ix.len()
                        &&& l.records@.len() == match sel.limit {
                            Some(n) => if n < ix.len() { n as int } else { ix.len() as int },
                            None => ix.len() as int,
                        }
                        &&& forall|k: int|
                            0 <= k < l.records@.len() ==> l.records@[k] == reg.records@[#[trigger] ix[k] as int]
                    },
            Err(e) => filters_checked(*f, Err(e)),
        },
{
    match parse_filters(f) {
        Ok(sel) => Ok(select(reg, &sel)),
        Err(e) => Err(e),
    }
}

/// The note `mic list` adds when a limit hid some matches.
pub open spec fn list_note_text(shown: nat, total: nat) -> Option<Seq<char>> {
    if total > shown {
        Some("showing "@ + decimal_text(shown) + " of "@ + decimal_text(total) + " matches"@)
    } else {
        None
    }
}

/// Say how many matches a limit left out, if it left any out.
pub fn list_note(l: &Listing) -> (note: Option<String>)
    ensures
        match (note, list_note_text(l.records@.len(), l.total as nat)) {
            (Some(n), Some(t)) => n@ == t,
            (None, None) => true,
            _ => false,
        },
{
    let shown = l.records.len();
    if l.total > shown {
        let mut s = String::from_str("showing ");
        let a = decimal(shown as u64);
        s.append(a.as_str());
        s.append(" of ");
        let b = decimal(l.total as u64);
        s.append(b.as_str());
        s.append(" matches");
        Some(s)
    } else {
        None
    }
}


/// The text given where a MIC was expected.
#[derive(Debug, PartialEq, Eq)]
pub struct NotAMic {
    pub given: String,
}

/// A MIC argument, in upper case, or the text given when it is not four ASCII
/// alphanumeric characters.
pub fn mic_argument(s: &str) -> (r: Result<String, NotAMic>)
    ensures
        match r {
            Ok(code) => code_shaped(s@, 4, false) && code@ == upper_text(s@),
            Err(e) => !code_shaped(s@, 4, false) && e.given@ == s@,
        },
{
    match parse_mic_code(s) {
        Some(code) => Ok(code),
        None => Err(NotAMic { given: String::from_str(s) }),
    }
}

/// The MIC asked for is not in this vintage.
#[derive(Debug, PartialEq, Eq)]
pub struct NotInVintage {
    pub code: String,
}

/// The record with this MIC.
pub fn lookup(reg: &RegistryView, code: &str) -> (r: Result<RecordView, NotInVintage>)
    ensures
        match r {
            Ok(v) => exists|i: int| first_with_mic(reg.records@, code@, i) && v == reg.records@[i],
            Err(e) => e.code@ == code@ && forall|j: int|
                0 <= j < reg.records@.len() ==> (#[trigger] reg.records@[j]).mic@ != code@,
        },
{
    match find_mic(reg, code) {
        Some(i) => Ok(reg.records[i].duplicate()),
        None => Err(NotInVintage { code: String::from_str(code) }),
    }
}

/// `mic segments`: the segments operating under a MIC that is in the vintage.
pub fn segments(reg: &RegistryView, code: &str) -> (r: Result<Vec<RecordView>, NotInVintage>)
    ensures
        match r {
            Ok(out) => (exists|i: int| first_with_mic(reg.records@, code@, i)) && segments_listed(
                reg.records@,
                code@,
                out@,
            ),
            Err(e) => e.code@ == code@ && forall|j: int|
                0 <= j < reg.records@.len() ==> (#[trigger] reg.records@[j]).mic@ != code@,
        },
{
    match find_mic(reg, code) {
        Some(_) => Ok(segments_of(reg, code)),
        None => Err(NotInVintage { code: String::from_str(code) }),
    }
}

/// `mic get --segments` in a machine format: one flat list, the record first
/// and its segments after, so the shape does not depend on the flag.
pub fn record_and_segments(reg: &RegistryView, code: &str) -> (r: Result<Vec<RecordView>, NotInVintage>)
    ensures
        match r {
            Ok(out) => out@.len() >= 1 && (exists|i: int| first_with_mic(reg.records@, code@, i) && out@[0]
                == reg.records@[i]) && segments_listed(reg.records@, code@, out@.drop_first()),
            Err(e) => e.code@ == code@ && forall|j: int|
                0 <= j < reg.records@.len() ==> (#[trigger] reg.records@[j]).mic@ != code@,
        },
{
    match find_mic(reg, code) {
        Some(i) => {
            let segs = segments_of(reg, code);
            let mut out: Vec<RecordView> = vec![reg.records[i].duplicate()];
            let mut k: usize = 0;
            while k < segs.len()
                invariant
                    k <= segs@.len(),
                    out@.len() == k + 1,
                    out@[0] == reg.records@[i as int],
                    out@.drop_first() == segs@.take(k as int),
                decreases segs@.len() - k,
            {
                out.push(segs[k].duplicate());
                k = k + 1;
                assert(out@.drop_first() =~= segs@.take(k as int));
            }
            assert(segs@.take(segs@.len() as int) =~= segs@);
            Ok(out)
        },
        None => Err(NotInVintage { code: String::from_str(code) }),
    }
}

/// `mic get --segments` as a table: the record in full, a blank line, then its
/// segments or a line saying it has none.
pub open spec fn detail_with_segments_text(record: RecordView, segs: Seq<RecordView>) -> Seq<Seq<char>> {
    detail_text(record) + seq![Seq::<char>::empty()] + if segs.len() == 0 {
        seq!["no segments"@]
    } else {
        seq![decimal_text(segs.len()) + " segment(s):"@] + records_text(segs)
    }
}

/// Render a record with its segments as text.
pub fn detail_with_segments_lines(record: &RecordView, segs: &Vec<RecordView>) -> (out: Vec<String>)
    ensures
        texts(out@) == detail_with_segments_text(*record, segs@),
{
    let mut out = record_detail_lines(record);
    out.push(String::new());
    if segs.len() == 0 {
        out.push(String::from_str("no segments"));
    } else {
        let mut head = decimal(segs.len() as u64);
        head.append(" segment(s):");
        out.push(head);
        let table = records_table(segs);
        push_all(&mut out, &table);
    }
    assert(texts(out@) =~= detail_with_segments_text(*record, segs@));
    out
}

/// What `mic diff` notes on stderr: which files are compared, and a warning
/// when the first is the later vintage.
pub open spec fn diff_notes_text(old_origin: Seq<char>, old_published: Date, new_origin: Seq<char>, new_published: Date) -> Seq<Seq<char>> {
    seq![old_origin + " ("@ + date_text(old_published) + ") -> "@ + new_origin + " ("@ + date_text(new_published) + ")"@]
        + if new_published.precedes(old_published) {
        seq!["note: the first file is the later vintage; arguments may be swapped"@]
    } else {
        Seq::empty()
    }
}

/// The notes `mic diff` writes before the difference.
pub fn diff_notes(old_origin: &str, old_published: Date, new_origin: &str, new_published: Date) -> (out: Vec<String>)
    requires
        old_published.wf(),
        new_published.wf(),
    ensures
        texts(out@) == diff_notes_text(old_origin@, old_published, new_origin@, new_published),
{
    let mut first = String::from_str(old_origin);
    first.append(" (");
    let a = old_published.to_text();
    first.append(a.as_str());
    first.append(") -> ");
    first.append(new_origin);
    first.append(" (");
    let b = new_published.to_text();
    first.append(b.as_str());
    first.append(")");
    let mut out = vec![first];
    if new_published.is_before(&old_published) {
        out.push(String::from_str("note: the first file is the later vintage; arguments may be swapped"));
    }
    assert(texts(out@) =~= diff_notes_text(old_origin@, old_published, new_origin@, new_published));
    out
}


pub open spec fn cal_rows() -> Seq<Seq<Seq<char>>> {
    seq![
        seq!["diurn cal status <id>"@, "open or closed at an instant"@],
        seq!["diurn cal next-close <id>"@, "next session close"@],
        seq!["diurn cal next-open <id>"@, "next session open"@],
        seq!["diurn cal sessions <id>"@, "sessions over a date range"@],
        seq!["diurn cal coverage"@, "which calendars are verified how far"@],
    ]
}

/// What `diurn cal` says: the namespace is reserved, needs a key, and what it
/// will hold.
pub open spec fn cal_text() -> Seq<Seq<char>> {
    seq!["calendar commands require DIURN_API_KEY — get one at https://diurn.io"@, Seq::<char>::empty()]
        + table_text(seq!["COMMAND"@, "WHAT IT WILL DO"@], cal_rows()) + seq![
        Seq::<char>::empty(),
        "MIC commands need no key and work offline: try `diurn mic --help`."@,
    ]
}

fn pair(a: &str, b: &str) -> (row: Vec<String>)
    ensures
        texts(row@) == seq![a@, b@],
        row@.len() == 2,
{
    let row = vec![String::from_str(a), String::from_str(b)];
    assert(texts(row@) =~= seq![a@, b@]);
    row
}

/// `diurn cal`, reserved and not implemented: the lines it writes to stderr,
/// and its exit code, a usage error, since it cannot do the work.
pub fn cal(quiet: bool) -> (r: (Vec<String>, i32))
    ensures
        texts(r.0@) == cal_text(),
        r.1 == EXIT_USAGE,
{
    let _ = quiet;
    let mut t = Table::new(&["COMMAND", "WHAT IT WILL DO"]);
    assert(t.header_text() =~= seq!["COMMAND"@, "WHAT IT WILL DO"@]);
    t.push(pair("diurn cal status <id>", "open or closed at an instant"));
    t.push(pair("diurn cal next-close <id>", "next session close"));
    t.push(pair("diurn cal next-open <id>", "next session open"));
    t.push(pair("diurn cal sessions <id>", "sessions over a date range"));
    t.push(pair("diurn cal coverage", "which calendars are verified how far"));
    assert(t.row_text() =~= cal_rows());
    let mut out: Vec<String> = vec![
        String::from_str("calendar commands require DIURN_API_KEY — get one at https://diurn.io"),
        String::new(),
    ];
    let lines = t.lines();
    assert(texts(lines@) == table_text(seq!["COMMAND"@, "WHAT IT WILL DO"@], cal_rows()));
    push_all(&mut out, &lines);
    let ghost p1 = out@;
    let blank = String::new();
    out.push(blank);
    let last = String::from_str("MIC commands need no key and work offline: try `diurn mic --help`.");
    out.push(last);
    assert(texts(out@) =~= texts(p1).push(blank@).push(last@));
    assert(texts(out@) =~= cal_text());
    (out, EXIT_USAGE)
}

/// A registry file as `mic vintages` lists it.
#[derive(Debug, PartialEq, Eq)]
pub struct VintageView {
    pub path: String,
    pub published: Option<String>,
    pub bytes: u64,
    /// The one an unqualified command uses.
    pub selected: bool,
}

pub open spec fn vintage_view_of(v: Vintage, first: bool, view: VintageView) -> bool {
    &&& view.path@ == v.path@
    &&& match (v.published, view.published) {
        (Some(d), Some(t)) => t@ == date_text(d),
        (None, None) => true,
        _ => false,
    }
    &&& view.bytes == v.bytes
    &&& view.selected == first
}

/// The available vintages as listed; the first, which an unqualified command
/// uses, is the one marked selected.
pub fn vintage_views(found: &Vec<Vintage>) -> (views: Vec<VintageView>)
    requires
        forall|k: int| 0 <= k < found@.len() ==> ((#[trigger] found@[k]).published matches Some(d) ==> d.wf()),
    ensures
        views@.len() == found@.len(),
        forall|k: int| 0 <= k < found@.len() ==> vintage_view_of(found@[k], k == 0, #[trigger] views@[k]),
{
    let mut views: Vec<VintageView> = Vec::new();
    let mut k: usize = 0;
    while k < found.len()
        invariant
            k <= found@.len(),
            views@.len() == k,
            forall|j: int| 0 <= j < found@.len() ==> ((#[trigger] found@[j]).published matches Some(d) ==> d.wf()),
            forall|j: int| 0 <= j < k ==> vintage_view_of(found@[j], j == 0, #[trigger] views@[j]),
        decreases found@.len() - k,
    {
        let v = &found[k];
        let published = match v.published {
            Some(d) => Some(d.to_text()),
            None => None,
        };
        views.push(VintageView { path: v.path.clone(), published, bytes: v.bytes, selected: k == 0 });
        k = k + 1;
    }
    views
}

/// A path's file name, or the whole path when it names none.
pub open spec fn shown_file_name(path: Seq<char>, windows: bool) -> Seq<char> {
    match file_name_of(path, windows) {
        Some(n) => n,
        None => path,
    }
}

pub open spec fn vintage_cells(v: VintageView, windows: bool) -> Seq<Seq<char>> {
    seq![
        if v.selected { "*"@ } else { Seq::<char>::empty() },
        match v.published {
            Some(p) => p@,
            None => "unknown"@,
        },
        decimal_text((v.bytes / 1024) as nat) + " KB"@,
        shown_file_name(v.path@, windows),
    ]
}

/// The table `mic vintages` prints.
pub open spec fn vintages_text(views: Seq<VintageView>, windows: bool) -> Seq<Seq<char>> {
    table_text(
        seq![""@, "PUBLISHED"@, "SIZE"@, "FILE"@],
        views.map_values(|v: VintageView| vintage_cells(v, windows)),
    )
}

fn vintage_row(v: &VintageView, windows: bool) -> (row: Vec<String>)
    ensures
        texts(row@) == vintage_cells(*v, windows),
{
    let mark = if v.selected {
        String::from_str("*")
    } else {
        String::new()
    };
    let published = match &v.published {
        Some(p) => p.clone(),
        None => String::from_str("unknown"),
    };
    let mut size = decimal(v.bytes / 1024);
    size.append(" KB");
    let file = match file_name_range(v.path.as_str(), windows) {
        Some((a, b)) => String::from_str(v.path.as_str().substring_char(a, b)),
        None => v.path.clone(),
    };
    let row = vec![mark, published, size, file];
    assert(texts(row@) =~= vintage_cells(*v, windows));
    row
}

/// Render the available vintages as a table.
pub fn vintages_table(views: &Vec<VintageView>, windows: bool) -> (out: Vec<String>)
    ensures
        texts(out@) == vintages_text(views@, windows),
{
    let mut t = Table::new(&["", "PUBLISHED", "SIZE", "FILE"]);
    assert(t.header_text() =~= seq![""@, "PUBLISHED"@, "SIZE"@, "FILE"@]);
    let mut i: usize = 0;
    while i < views.len()
        invariant
            i <= views@.len(),
            t.header_text() == seq![""@, "PUBLISHED"@, "SIZE"@, "FILE"@],
            t.row_text() == views@.take(i as int).map_values(|v: VintageView| vintage_cells(v, windows)),
        decreases views@.len() - i,
    {
        let row = vintage_row(&views[i], windows);
        assert(texts(row@).len() == row@.len());
        t.push(row);
        i = i + 1;
        assert(t.row_text() =~= views@.take(i as int).map_values(|v: VintageView| vintage_cells(v, windows)));
    }
    assert(views@.take(views@.len() as int) =~= views@);
    t.lines()
}

/// The footnote under the vintages table.
pub open spec fn vintages_footnote_text(count: nat) -> Seq<char> {
    "\n* used when no --path is given"@ + if count > 1 {
        "; the newest publication date wins"@
    } else {
        Seq::empty()
    }
}

/// Explain the mark in the vintages table.
pub fn vintages_footnote(count: usize) -> (s: String)
    ensures
        s@ == vintages_footnote_text(count as nat),
{
    let mut s = String::from_str("\n* used when no --path is given");
    if count > 1 {
        s.append("; the newest publication date wins");
    }
    assert(s@ =~= vintages_footnote_text(count as nat));
    s
}

/// What `vintages` says about an empty data directory: where it looked, and
/// how to fill it. An empty directory is a normal state, not a failure.
pub open spec fn no_vintages_text(dir: Seq<char>) -> Seq<char> {
    "no registry files in "@ + dir + "\nRun `diurn mic fetch` to download one."@
}

/// The note for an empty data directory.
pub fn no_vintages_note(dir: &str) -> (s: String)
    ensures
        s@ == no_vintages_text(dir@),
{
    let mut s = String::from_str("no registry files in ");
    s.append(dir);
    s.append("\nRun `diurn mic fetch` to download one.");
    s
}

} // verus!
