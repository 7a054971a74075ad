//! Where registry files live, which one a command reads, and which vintage a
//! file is.
//!
//! Nothing is compiled into the program: a registry it shipped with would age
//! silently with every release. The file is always something the user fetched
//! or supplied, and every command says which one it used.

use vstd::prelude::*;
use crate::date::{Date, date_text, digit, jiff_date_parse, pad2, pad4, parse_date};
use crate::order::{is_permutation, lex_order, listed_before, stable_order};
use crate::text::push_char;

verus! {

/// The ISO download location of the current registry.
pub const ISO_URL: &'static str = "https://www.iso20022.org/sites/default/files/ISO10383_MIC/ISO10383_MIC.csv";

/// Overrides the download URL.
pub const URL_ENV: &'static str = "DIURN_MIC_URL";

/// Overrides where fetched registries are kept and looked for.
pub const DATA_DIR_ENV: &'static str = "DIURN_DATA_DIR";

/// Where `mic fetch` downloads from: the value of `DIURN_MIC_URL` when it is
/// set, else ISO's own address.
pub fn fetch_url(url_env: Option<&str>) -> (url: String)
    ensures
        url@ == (match url_env {
            Some(u) => u@,
            None => ISO_URL@,
        }),
{
    match url_env {
        Some(u) => String::from_str(u),
        None => String::from_str(ISO_URL),
    }
}

/// `c` is a path separator on this platform.
pub open spec fn is_separator(c: char, windows: bool) -> bool {
    c == '/' || (windows && c == '\\')
}

/// `base` joined with the relative path `rel`, as `Path::join` does: a
/// separator goes between them unless `base` is empty or already ends in one.
pub open spec fn joined(base: Seq<char>, rel: Seq<char>, windows: bool) -> Seq<char> {
    if base.len() == 0 || is_separator(base.last(), windows) {
        base + rel
    } else {
        base.push(if windows { '\\' } else { '/' }) + rel
    }
}

/// Join a relative path onto `base`.
pub fn join_path(base: &str, rel: &str, windows: bool) -> (p: String)
    ensures
        p@ == joined(base@, rel@, windows),
{
    let mut p = String::from_str(base);
    let n = base.unicode_len();
    if n > 0 {
        let last = base.get_char(n - 1);
        if !(last == '/' || (windows && last == '\\')) {
            push_char(&mut p, if windows { '\\' } else { '/' });
        }
    }
    p.append(rel);
    p
}

/// `s[i..j]` is a whole component of the path `s`: bounded by separators or the
/// ends of the text.
pub open spec fn component_at(s: Seq<char>, i: int, j: int) -> bool {
    &&& 0 <= i <= j <= s.len()
    &&& (i == 0 || s[i - 1] == '/')
    &&& (j == s.len() || s[j] == '/')
    &&& forall|k: int| i <= k < j ==> s[k] != '/'
}

/// The path has a component that is exactly `snap`.
pub open spec fn has_snap_component(s: Seq<char>) -> bool {
    exists|i: int, j: int| component_at(s, i, j) && #[trigger] s.subrange(i, j) == seq!['s', 'n', 'a', 'p']
}

/// Whether a path lies inside a snap's private per-revision tree.
///
/// Snap user data lives at `~/snap/<app>/<revision>/`, and several snaps export
/// `XDG_DATA_HOME` pointing there. The revision changes when that application
/// updates, so anything stored under it silently disappears. A component must
/// be `snap` exactly: `snapshots` is not one.
pub fn is_snap_private(p: &str) -> (r: bool)
    ensures
        r == has_snap_component(p@),
{
    let n = p.unicode_len();
    if n < 4 {
        proof {
            assert forall|i: int, j: int| component_at(p@, i, j) implies #[trigger] p@.subrange(i, j)
                != seq!['s', 'n', 'a', 'p'] by {
                assert(p@.subrange(i, j).len() < 4);
            }
        }
        return false;
    }
    let mut i: usize = 0;
    while i <= n - 4
        invariant
            n == p@.len(),
            4 <= n,
            i <= n - 3,
            forall|a: int, b: int|
                0 <= a < i && component_at(p@, a, b) ==> #[trigger] p@.subrange(a, b) != seq![
                    's',
                    'n',
                    'a',
                    'p',
                ],
        decreases n - i,
    {
        let starts = i == 0 || p.get_char(i - 1) == '/';
        let ends = i + 4 == n || p.get_char(i + 4) == '/';
        if starts && ends && p.get_char(i) == 's' && p.get_char(i + 1) == 'n' && p.get_char(i + 2) == 'a'
            && p.get_char(i + 3) == 'p' {
            proof {
                assert(p@.subrange(i as int, i + 4) =~= seq!['s', 'n', 'a', 'p']);
                assert(component_at(p@, i as int, i + 4));
            }
            return true;
        }
        proof {
            assert forall|b: int| component_at(p@, i as int, b) implies #[trigger] p@.subrange(
                i as int,
                b,
            ) != seq!['s', 'n', 'a', 'p'] by {
                if p@.subrange(i as int, b) == seq!['s', 'n', 'a', 'p'] {
                    assert(p@.subrange(i as int, b).len() == 4);
                    assert(b == i + 4);
                    assert(p@.subrange(i as int, b)[0] == p@[i as int]);
                    assert(p@.subrange(i as int, b)[1] == p@[i + 1]);
                    assert(p@.subrange(i as int, b)[2] == p@[i + 2]);
                    assert(p@.subrange(i as int, b)[3] == p@[i + 3]);
                }
            }
        }
        i = i + 1;
    }
    proof {
        assert forall|a: int, b: int| component_at(p@, a, b) implies #[trigger] p@.subrange(a, b) != seq![
            's',
            'n',
            'a',
            'p',
        ] by {
            if a >= i {
                assert(p@.subrange(a, b).len() < 4);
            }
        }
    }
    false
}


/// The platform whose conventions decide where data lives.
#[derive(Clone, Copy, Debug, PartialEq, Eq, Structural)]
pub enum Platform {
    Windows,
    MacOs,
    /// Linux and the other Unix-likes: the XDG convention.
    Unix,
}

/// The environment variables that decide the data directory, as read at start.
#[derive(Clone, Debug, PartialEq, Eq)]
pub struct Environment {
    /// `DIURN_DATA_DIR`.
    pub data_dir_override: Option<String>,
    /// `SNAP_REAL_HOME`: under snap confinement, the real home directory.
    pub snap_real_home: Option<String>,
    /// `HOME`.
    pub home: Option<String>,
    /// `APPDATA`.
    pub appdata: Option<String>,
    /// `XDG_DATA_HOME`.
    pub xdg_data_home: Option<String>,
}

/// Where fetched registries live, and why.
#[derive(Clone, Debug, PartialEq, Eq)]
pub struct DataDir {
    pub path: String,
    /// Set when an environment variable was deliberately not honoured, so the
    /// choice can be explained rather than looking arbitrary.
    pub note: Option<String>,
}

/// No data directory can be determined: `DIURN_DATA_DIR` has to be set.
#[derive(Clone, Copy, Debug, PartialEq, Eq, Structural)]
pub struct NoDataDir;

pub open spec fn text_of(o: Option<String>) -> Option<Seq<char>> {
    match o {
        Some(s) => Some(s@),
        None => None,
    }
}

/// Why an `XDG_DATA_HOME` inside a snap's tree was not honoured.
pub open spec fn snap_note(xdg: Seq<char>) -> Seq<char> {
    "ignoring XDG_DATA_HOME="@ + xdg
        + " — it points inside a snap's per-revision directory, which would not survive that application updating. Set DIURN_DATA_DIR to override."@
}

/// The home directory: `SNAP_REAL_HOME` when set, else `HOME`.
pub open spec fn home_of(env: Environment) -> Option<Seq<char>> {
    match env.snap_real_home {
        Some(h) => Some(h@),
        None => text_of(env.home),
    }
}

/// The data directory and its note, or `None` when nothing determines one.
///
/// A non-empty `DIURN_DATA_DIR` overrides everything. Otherwise each platform
/// follows its convention: `%APPDATA%\diurn` on Windows,
/// `~/Library/Application Support/diurn` on macOS, and `$XDG_DATA_HOME/diurn`
/// or `~/.local/share/diurn` elsewhere, where an absolute `XDG_DATA_HOME` that
/// points into a snap's private tree is declined with an explanation.
pub open spec fn chosen_data_dir(env: Environment, platform: Platform) -> Option<(Seq<char>, Option<Seq<char>>)> {
    if env.data_dir_override matches Some(d) && d@.len() > 0 {
        Some((env.data_dir_override->0@, None))
    } else {
        match platform {
            Platform::Windows => match env.appdata {
                Some(a) => Some((joined(a@, "diurn"@, true), None)),
                None => None,
            },
            Platform::MacOs => match home_of(env) {
                Some(h) => Some((joined(h, "Library/Application Support/diurn"@, false), None)),
                None => None,
            },
            Platform::Unix => {
                let xdg_absolute = env.xdg_data_home matches Some(x) && x@.len() > 0 && x@[0] == '/';
                if xdg_absolute && !has_snap_component(env.xdg_data_home->0@) {
                    Some((joined(env.xdg_data_home->0@, "diurn"@, false), None))
                } else {
                    let note = if xdg_absolute {
                        Some(snap_note(env.xdg_data_home->0@))
                    } else {
                        None
                    };
                    match home_of(env) {
                        Some(h) => Some((joined(h, ".local/share/diurn"@, false), note)),
                        None => None,
                    }
                }
            },
        }
    }
}

/// Where fetched registries live.
///
/// A *data* directory rather than a cache directory, deliberately: a pinned
/// vintage is the evidence for what was served on a given day, and caches are
/// something the operating system is entitled to delete.
pub fn data_dir(env: &Environment, platform: Platform) -> (r: Result<DataDir, NoDataDir>)
    ensures
        match (r, chosen_data_dir(*env, platform)) {
            (Ok(d), Some((path, note))) => d.path@ == path && text_of(d.note) == note,
            (Err(_), None) => true,
            _ => false,
        },
{
    if let Some(d) = &env.data_dir_override {
        if d.as_str().unicode_len() > 0 {
            return Ok(DataDir { path: d.clone(), note: None });
        }
    }
    let home: Option<&String> = match &env.snap_real_home {
        Some(h) => Some(h),
        None => match &env.home {
            Some(h) => Some(h),
            None => None,
        },
    };
    match platform {
        Platform::Windows => match &env.appdata {
            Some(a) => Ok(DataDir { path: join_path(a.as_str(), "diurn", true), note: None }),
            None => Err(NoDataDir),
        },
        Platform::MacOs => match home {
            Some(h) => Ok(
                DataDir {
                    path: join_path(h.as_str(), "Library/Application Support/diurn", false),
                    note: None,
                },
            ),
            None => Err(NoDataDir),
        },
        Platform::Unix => {
            let mut note: Option<String> = None;
            if let Some(x) = &env.xdg_data_home {
                let xs = x.as_str();
                if xs.unicode_len() > 0 && xs.get_char(0) == '/' {
                    if !is_snap_private(xs) {
                        return Ok(DataDir { path: join_path(xs, "diurn", false), note: None });
                    }
                    let mut msg = String::from_str("ignoring XDG_DATA_HOME=");
                    msg.append(xs);
                    msg.append(
                        " — it points inside a snap's per-revision directory, which would not survive that application updating. Set DIURN_DATA_DIR to override.",
                    );
                    note = Some(msg);
                }
            }
            match home {
                Some(h) => Ok(DataDir { path: join_path(h.as_str(), ".local/share/diurn", false), note }),
                None => Err(NoDataDir),
            }
        },
    }
}


/// The position just past the last `c` in `s`, or 0 when there is none.
pub open spec fn after_last(s: Seq<char>, c: char) -> int
    decreases s.len(),
{
    if s.len() == 0 {
        0
    } else if s.last() == c {
        s.len() as int
    } else {
        after_last(s.drop_last(), c)
    }
}

pub proof fn lemma_after_last_bounds(s: Seq<char>, c: char)
    ensures
        0 <= after_last(s, c) <= s.len(),
        s.len() > 0 && s.last() != c ==> after_last(s, c) < s.len(),
        after_last(s, c) > 0 ==> s[after_last(s, c) - 1] == c,
        forall|k: int| after_last(s, c) <= k < s.len() ==> #[trigger] s[k] != c,
    decreases s.len(),
{
    if s.len() > 0 && s.last() != c {
        lemma_after_last_bounds(s.drop_last(), c);
        assert forall|k: int| after_last(s, c) <= k < s.len() implies #[trigger] s[k] != c by {
            if k < s.len() - 1 {
                assert(s[k] == s.drop_last()[k]);
            }
        }
    }
}

/// The position just past the last path separator in `s`, or 0 when there is
/// none.
pub open spec fn after_sep(s: Seq<char>, windows: bool) -> int
    decreases s.len(),
{
    if s.len() == 0 {
        0
    } else if is_separator(s.last(), windows) {
        s.len() as int
    } else {
        after_sep(s.drop_last(), windows)
    }
}

pub proof fn lemma_after_sep_bounds(s: Seq<char>, windows: bool)
    ensures
        0 <= after_sep(s, windows) <= s.len(),
        s.len() > 0 && !is_separator(s.last(), windows) ==> after_sep(s, windows) < s.len(),
        after_sep(s, windows) > 0 ==> is_separator(s[after_sep(s, windows) - 1], windows),
        forall|k: int| after_sep(s, windows) <= k < s.len() ==> !is_separator(#[trigger] s[k], windows),
    decreases s.len(),
{
    if s.len() > 0 && !is_separator(s.last(), windows) {
        lemma_after_sep_bounds(s.drop_last(), windows);
        assert forall|k: int| after_sep(s, windows) <= k < s.len() implies !is_separator(#[trigger] s[k], windows) by {
            if k < s.len() - 1 {
                assert(s[k] == s.drop_last()[k]);
            }
        }
    }
}

/// A text without separators has nothing before a last one.
proof fn lemma_after_sep_absent(s: Seq<char>, windows: bool)
    requires
        forall|i: int| 0 <= i < s.len() ==> !is_separator(#[trigger] s[i], windows),
    ensures
        after_sep(s, windows) == 0,
    decreases s.len(),
{
    if s.len() > 0 {
        lemma_after_sep_absent(s.drop_last(), windows);
    }
}

/// The last component of a path when it is a file or directory name, as
/// `Path::file_name` gives it: trailing separators and `.` components are
/// skipped, and a path ending in `..` (or naming only a root) has none. On
/// Windows both `/` and `\\` separate components.
pub open spec fn file_name_of(s: Seq<char>, windows: bool) -> Option<Seq<char>>
    decreases s.len(),
{
    if s.len() == 0 {
        None
    } else if is_separator(s.last(), windows) {
        file_name_of(s.drop_last(), windows)
    } else {
        let k = after_sep(s, windows);
        let seg = s.skip(k);
        if seg == seq!['.'] {
            proof {
                lemma_after_sep_bounds(s, windows);
            }
            file_name_of(s.take(k), windows)
        } else if seg == seq!['.', '.'] {
            None
        } else {
            Some(seg)
        }
    }
}

/// A file name without its extension, as `Path::file_stem` gives it: the text
/// before the last `.`, unless that dot is the first character or there is none.
pub open spec fn stem_of(name: Seq<char>) -> Seq<char> {
    let d = after_last(name, '.');
    if d <= 1 {
        name
    } else {
        name.take(d - 1)
    }
}

/// A file name's extension, as `Path::extension` gives it.
pub open spec fn extension_of(name: Seq<char>) -> Option<Seq<char>> {
    let d = after_last(name, '.');
    if d <= 1 {
        None
    } else {
        Some(name.skip(d))
    }
}

/// What the filename convention says about a path: the text after the last
/// `_` of the file's stem, read as a date.
pub open spec fn dated_by_filename(path: Seq<char>, windows: bool) -> Option<Date> {
    match file_name_of(path, windows) {
        Some(name) => {
            let stem = stem_of(name);
            jiff_date_parse(stem.skip(after_last(stem, '_')))
        },
        None => None,
    }
}

/// `after_last(s.take(end), c)`, found by scanning back from `end`.
fn after_last_before(s: &str, end: usize, c: char) -> (k: usize)
    requires
        end <= s@.len(),
    ensures
        k == after_last(s@.take(end as int), c),
        k <= end,
{
    let mut j = end;
    while j > 0 && s.get_char(j - 1) != c
        invariant
            end <= s@.len(),
            j <= end,
            after_last(s@.take(end as int), c) == after_last(s@.take(j as int), c),
        decreases j,
    {
        assert(s@.take(j as int).drop_last() =~= s@.take(j - 1));
        j = j - 1;
    }
    if j > 0 {
        assert(s@.take(j as int).last() == c);
    }
    j
}

fn is_sep(c: char, windows: bool) -> (r: bool)
    ensures
        r == is_separator(c, windows),
{
    c == '/' || (windows && c == '\\')
}

/// `after_sep(s.take(end))`, found by scanning back from `end`.
fn after_sep_before(s: &str, end: usize, windows: bool) -> (k: usize)
    requires
        end <= s@.len(),
    ensures
        k == after_sep(s@.take(end as int), windows),
        k <= end,
{
    let mut j = end;
    while j > 0 && !is_sep(s.get_char(j - 1), windows)
        invariant
            end <= s@.len(),
            j <= end,
            after_sep(s@.take(end as int), windows) == after_sep(s@.take(j as int), windows),
        decreases j,
    {
        assert(s@.take(j as int).drop_last() =~= s@.take(j - 1));
        j = j - 1;
    }
    if j > 0 {
        assert(s@.take(j as int).last() == s@[j - 1]);
    }
    j
}

/// Where in `s` its file name lies, as a range of character positions.
pub(crate) fn file_name_range(s: &str, windows: bool) -> (r: Option<(usize, usize)>)
    ensures
        match r {
            Some((a, b)) => a <= b <= s@.len() && file_name_of(s@, windows) == Some(s@.subrange(a as int, b as int)),
            None => file_name_of(s@, windows) is None,
        },
{
    let n = s.unicode_len();
    let mut end = n;
    assert(s@.take(n as int) =~= s@);
    loop
        invariant
            n == s@.len(),
            end <= n,
            file_name_of(s@, windows) == file_name_of(s@.take(end as int), windows),
        decreases end,
    {
        let ghost end0 = end;
        let mut stripping = true;
        while stripping
            invariant
                n == s@.len(),
                end <= end0 <= n,
                file_name_of(s@, windows) == file_name_of(s@.take(end as int), windows),
                !stripping ==> (end > 0 ==> !is_separator(s@[end - 1], windows)),
            decreases end + if stripping { 1int } else { 0int },
        {
            if end > 0 && is_sep(s.get_char(end - 1), windows) {
                assert(s@.take(end as int).drop_last() =~= s@.take(end - 1));
                end = end - 1;
            } else {
                stripping = false;
            }
        }
        if end == 0 {
            return None;
        }
        let start = after_sep_before(s, end, windows);
        let ghost t = s@.take(end as int);
        proof {
            assert(t.last() == s@[end - 1]);
            lemma_after_sep_bounds(t, windows);
        }
        assert(t.skip(start as int) =~= s@.subrange(start as int, end as int));
        let len = end - start;
        let is_dot = len == 1 && s.get_char(start) == '.';
        let is_dotdot = len == 2 && s.get_char(start) == '.' && s.get_char(start + 1) == '.';
        if is_dot {
            assert(t.skip(start as int) =~= seq!['.']);
            assert(t.take(start as int) =~= s@.take(start as int));
            end = start;
        } else if is_dotdot {
            assert(t.skip(start as int) =~= seq!['.', '.']);
            return None;
        } else {
            assert(t.skip(start as int) != seq!['.']) by {
                if t.skip(start as int) == seq!['.'] {
                    assert(t.skip(start as int)[0] == s@[start as int]);
                }
            }
            assert(t.skip(start as int) != seq!['.', '.']) by {
                if t.skip(start as int) == seq!['.', '.'] {
                    assert(t.skip(start as int)[0] == s@[start as int]);
                    assert(t.skip(start as int)[1] == s@[start + 1]);
                }
            }
            return Some((start, end));
        }
    }
}

/// The date a conventionally named registry file carries, such as
/// `ISO10383_MIC_2026-08-10.csv`: the text after the last `_` of the file's
/// stem, if it reads as a date.
pub fn published_from_filename(path: &str, windows: bool) -> (r: Option<Date>)
    ensures
        r == dated_by_filename(path@, windows),
        r matches Some(d) ==> d.wf(),
        forall|d: Date| d.wf() && path@ == vintage_file_name(d) ==> r == Some(d),
{
    match file_name_range(path, windows) {
        None => {
            proof {
                assert forall|d: Date| d.wf() && path@ == vintage_file_name(d) implies false by {
                    lemma_vintage_file_name_dated(d, windows);
                }
            }
            None
        },
        Some((a, b)) => {
            let name = path.substring_char(a, b);
            let n = name.unicode_len();
            let d = after_last_before(name, n, '.');
            assert(name@.take(n as int) =~= name@);
            let stem = if d <= 1 {
                name
            } else {
                name.substring_char(0, d - 1)
            };
            assert(stem@ == stem_of(name@));
            let m = stem.unicode_len();
            let u = after_last_before(stem, m, '_');
            assert(stem@.take(m as int) =~= stem@);
            let tail = stem.substring_char(u, m);
            assert(tail@ =~= stem@.skip(u as int));
            let r = match parse_date(tail) {
                Ok(date) => Some(date),
                Err(_) => None,
            };
            proof {
                assert forall|d: Date| d.wf() && path@ == vintage_file_name(d) implies r == Some(d) by {
                    lemma_vintage_file_name_dated(d, windows);
                    assert(name@ == path@);
                    assert(stem@ == stem_of(path@));
                    assert(tail@ == date_text(d));
                }
            }
            r
        },
    }
}

/// The name a vintage is stored under: `ISO10383_MIC_<date>.csv`.
pub open spec fn vintage_file_name(published: Date) -> Seq<char> {
    "ISO10383_MIC_"@ + date_text(published) + ".csv"@
}

/// Appending text without `c` leaves the last `c` where it was.
proof fn lemma_after_last_append(a: Seq<char>, b: Seq<char>, c: char)
    requires
        forall|i: int| 0 <= i < b.len() ==> #[trigger] b[i] != c,
    ensures
        after_last(a + b, c) == after_last(a, c),
    decreases b.len(),
{
    if b.len() > 0 {
        assert((a + b).drop_last() =~= a + b.drop_last());
        lemma_after_last_append(a, b.drop_last(), c);
    } else {
        assert(a + b =~= a);
    }
}

/// The characters of a date's text: digits and hyphens, none of them a path
/// separator, a dot or an underscore.
proof fn lemma_date_text_chars(d: Date)
    ensures
        forall|i: int| 0 <= i < date_text(d).len() ==> {
            let ch = #[trigger] date_text(d)[i];
            ch != '/' && ch != '\\' && ch != '.' && ch != '_'
        },
{
    let t = date_text(d);
    let y = d.year as int;
    let sign = if y < 0 { seq!['-', '0', '0'] } else { Seq::<char>::empty() };
    let ay = if y < 0 { -y } else { y };
    assert(t =~= sign + pad4(ay) + seq!['-'] + pad2(d.month as int) + seq!['-'] + pad2(d.day as int));
    assert forall|n: int| 0 <= n < 10 implies #[trigger] digit(n) != '/' && digit(n) != '\\' && digit(n) != '.'
        && digit(n) != '_' by {
        assert(digit(n) as u32 == 48 + n);
    }
    assert forall|i: int| 0 <= i < t.len() implies {
        let ch = #[trigger] t[i];
        ch != '/' && ch != '\\' && ch != '.' && ch != '_'
    } by {
        let a = sign.len() as int;
        if i < a {
            assert(t[i] == sign[i]);
        } else if i < a + 4 {
            assert(t[i] == pad4(ay)[i - a]);
            assert(0 <= (ay / 1000) % 10 < 10);
            assert(0 <= (ay / 100) % 10 < 10);
            assert(0 <= (ay / 10) % 10 < 10);
            assert(0 <= ay % 10 < 10);
        } else if i < a + 5 {
            assert(t[i] == '-');
        } else if i < a + 7 {
            assert(t[i] == pad2(d.month as int)[i - a - 5]);
            assert(0 <= (d.month as int / 10) % 10 < 10);
            assert(0 <= (d.month as int) % 10 < 10);
        } else if i < a + 8 {
            assert(t[i] == '-');
        } else {
            assert(t[i] == pad2(d.day as int)[i - a - 8]);
            assert(0 <= (d.day as int / 10) % 10 < 10);
            assert(0 <= (d.day as int) % 10 < 10);
        }
    }
}

/// What the filename convention reads back from the name `filename` writes.
proof fn lemma_vintage_file_name_dated(d: Date, windows: bool)
    ensures
        file_name_of(vintage_file_name(d), windows) == Some(vintage_file_name(d)),
        ({
            let stem = stem_of(vintage_file_name(d));
            stem.skip(after_last(stem, '_')) == date_text(d)
        }),
{
    reveal_strlit("ISO10383_MIC_");
    reveal_strlit(".csv");
    let p = "ISO10383_MIC_"@;
    let t = date_text(d);
    let e = ".csv"@;
    let f = vintage_file_name(d);
    let n = t.len() as int;
    lemma_date_text_chars(d);
    assert(p.len() == 13);
    assert(e.len() == 4);
    assert(f.len() == 17 + n);
    assert forall|i: int| 0 <= i < f.len() implies !is_separator(#[trigger] f[i], windows) by {
        if i < 13 {
            assert(f[i] == p[i]);
        } else if i < 13 + n {
            assert(f[i] == t[i - 13]);
        } else {
            assert(f[i] == e[i - 13 - n]);
        }
    }
    lemma_after_sep_absent(f, windows);
    assert(f.skip(0) =~= f);
    assert(f.last() == 'v');
    assert(f != seq!['.']);
    assert(f != seq!['.', '.']);
    // The stem ends before the last dot, the one of `.csv`.
    let a = p + t + seq!['.'];
    let b = seq!['c', 's', 'v'];
    assert(f =~= a + b);
    lemma_after_last_append(a, b, '.');
    assert(after_last(a, '.') == 14 + n);
    let stem = f.take(13 + n);
    assert(stem_of(f) == stem);
    assert(stem =~= p + t);
    lemma_after_last_append(p, t, '_');
    assert(p.last() == '_');
    assert(after_last(p, '_') == 13);
    assert(stem.skip(13) =~= t);
}

/// Whether a path names a `.csv` file, by its extension.
pub fn has_csv_extension(path: &str, windows: bool) -> (r: bool)
    ensures
        r == (match file_name_of(path@, windows) {
            Some(name) => extension_of(name) == Some(seq!['c', 's', 'v']),
            None => false,
        }),
{
    match file_name_range(path, windows) {
        None => false,
        Some((a, b)) => {
            let name = path.substring_char(a, b);
            let n = name.unicode_len();
            let d = after_last_before(name, n, '.');
            assert(name@.take(n as int) =~= name@);
            if d <= 1 {
                return false;
            }
            let ext = name.substring_char(d, n);
            assert(ext@ =~= name@.skip(d as int));
            let r = n - d == 3 && ext.get_char(0) == 'c' && ext.get_char(1) == 's' && ext.get_char(2) == 'v';
            proof {
                if r {
                    assert(ext@ =~= seq!['c', 's', 'v']);
                }
                if ext@ == seq!['c', 's', 'v'] {
                    assert(ext@.len() == 3);
                }
            }
            r
        },
    }
}


/// A registry file on disk, with whatever can be told about it from outside.
#[derive(Debug, PartialEq, Eq)]
pub struct Vintage {
    pub path: String,
    /// From the filename, when it follows the convention.
    pub published: Option<Date>,
    /// Modification time in nanoseconds since the Unix epoch, as a fallback
    /// ordering for files whose names carry no date.
    pub modified: Option<i64>,
    pub bytes: u64,
}

impl Vintage {
    /// A copy of this vintage.
    pub fn duplicate(&self) -> (v: Vintage)
        ensures
            v == *self,
    {
        Vintage { path: self.path.clone(), published: self.published, modified: self.modified, bytes: self.bytes }
    }
}

/// `a` outranks `b`: a dated file always beats an undated one, and among dated
/// files the later publication wins. Modification time only breaks ties, a
/// known time beating an unknown one.
pub open spec fn outranks(a: Vintage, b: Vintage) -> bool {
    match (a.published, b.published) {
        (Some(_), None) => true,
        (None, Some(_)) => false,
        (Some(x), Some(y)) if x != y => y.precedes(x),
        _ => match (a.modified, b.modified) {
            (Some(_), None) => true,
            (Some(s), Some(t)) => s > t,
            _ => false,
        },
    }
}

/// `a` and `b` rank equally: the same publication date and modification time.
pub open spec fn same_rank(a: Vintage, b: Vintage) -> bool {
    a.published == b.published && a.modified == b.modified
}

/// The sort key of a vintage: its rank, negated so that the newest sorts first.
pub open spec fn rank_key(v: Vintage) -> Seq<i128> {
    let (pf, y, m, d) = match v.published {
        Some(dt) => (1int, dt.year as int, dt.month as int, dt.day as int),
        None => (0int, 0int, 0int, 0int),
    };
    let (mf, t) = match v.modified {
        Some(t) => (1int, t as int),
        None => (0int, 0int),
    };
    seq![(-pf) as i128, (-y) as i128, (-m) as i128, (-d) as i128, (-mf) as i128, (-t) as i128]
}

proof fn lemma_rank_key_order(a: Vintage, b: Vintage)
    ensures
        lex_order(rank_key(a), rank_key(b)) < 0 <==> outranks(a, b),
        lex_order(rank_key(a), rank_key(b)) == 0 <==> same_rank(a, b),
{
    reveal_with_fuel(lex_order, 7);
    let ka = rank_key(a);
    let kb = rank_key(b);
    assert(ka.drop_first().drop_first().drop_first().drop_first().drop_first().drop_first().len() == 0);
    assert(kb.drop_first().drop_first().drop_first().drop_first().drop_first().drop_first().len() == 0);
    if a.published is Some && b.published is Some && a.published != b.published {
        let x = a.published->0;
        let y = b.published->0;
        assert(x.year != y.year || x.month != y.month || x.day != y.day);
    }
}

/// Build the rank keys of a list of vintages.
fn rank_keys(found: &Vec<Vintage>) -> (keys: Vec<Vec<i128>>)
    ensures
        keys@.len() == found@.len(),
        forall|k: int| 0 <= k < found@.len() ==> #[trigger] keys@[k]@ == rank_key(found@[k]),
{
    let mut keys: Vec<Vec<i128>> = Vec::new();
    let mut i: usize = 0;
    while i < found.len()
        invariant
            i <= found@.len(),
            keys@.len() == i,
            forall|k: int| 0 <= k < i ==> #[trigger] keys@[k]@ == rank_key(found@[k]),
        decreases found@.len() - i,
    {
        let v = &found[i];
        let (pf, y, m, d): (i128, i128, i128, i128) = match v.published {
            Some(dt) => (1, dt.year as i128, dt.month as i128, dt.day as i128),
            None => (0, 0, 0, 0),
        };
        let (mf, t): (i128, i128) = match v.modified {
            Some(t) => (1, t as i128),
            None => (0, 0),
        };
        let (npf, ny, nm, nd, nmf, nt) = (-pf, -y, -m, -d, -mf, -t);
        let key = vec![npf, ny, nm, nd, nmf, nt];
        assert(key@ =~= rank_key(found@[i as int]));
        keys.push(key);
        i = i + 1;
    }
    keys
}

/// `out` lists `found` newest first: a permutation by `order`, each vintage
/// outranking the next or ranking equally and keeping its original order.
pub open spec fn listed_newest_first(found: Seq<Vintage>, out: Seq<Vintage>, order: Seq<usize>) -> bool {
    &&& is_permutation(order, found.len() as int)
    &&& out.len() == found.len()
    &&& forall|k: int| 0 <= k < out.len() ==> #[trigger] out[k] == found[order[k] as int]
    &&& forall|a: int, b: int|
        0 <= a < b < out.len() ==> outranks(#[trigger] out[a], #[trigger] out[b]) || (same_rank(
            out[a],
            out[b],
        ) && order[a] < order[b])
}

/// The vintages newest first: dated files before undated ones, later
/// publications first, modification time breaking ties, and files that rank
/// equally in the order they were found.
pub fn newest_first(found: &Vec<Vintage>) -> (out: Vec<Vintage>)
    ensures
        exists|order: Seq<usize>| listed_newest_first(found@, out@, order),
{
    let keys = rank_keys(found);
    let order = stable_order(&keys);
    let ghost kv = keys@.map_values(|k: Vec<i128>| k@);
    let mut out: Vec<Vintage> = Vec::new();
    let mut k: usize = 0;
    while k < order.len()
        invariant
            is_permutation(order@, found@.len() as int),
            k <= order@.len(),
            out@.len() == k,
            forall|j: int| 0 <= j < k ==> #[trigger] out@[j] == found@[order@[j] as int],
        decreases order@.len() - k,
    {
        out.push(found[order[k]].duplicate());
        k = k + 1;
    }
    proof {
        assert forall|a: int, b: int| 0 <= a < b < out@.len() implies outranks(
            #[trigger] out@[a],
            #[trigger] out@[b],
        ) || (same_rank(out@[a], out@[b]) && order@[a] < order@[b]) by {
            let x = order@[a] as int;
            let y = order@[b] as int;
            assert(listed_before(kv, x, y));
            assert(kv[x] == rank_key(found@[x]));
            assert(kv[y] == rank_key(found@[y]));
            lemma_rank_key_order(found@[x], found@[y]);
        }
        assert(listed_newest_first(found@, out@, order@));
    }
    out
}

/// Which file to read, and the publication date to read it with when one is
/// known before reading.
#[derive(Debug, PartialEq, Eq)]
pub struct LoadPlan {
    pub path: String,
    pub published: Option<Date>,
}

/// The plan for one file: an explicit `--published` wins, then the date the
/// filename carries; with neither, the date is inferred from the contents.
pub fn load_path(path: &str, published: Option<Date>, windows: bool) -> (plan: LoadPlan)
    ensures
        plan.path@ == path@,
        plan.published == (match published {
            Some(d) => Some(d),
            None => dated_by_filename(path@, windows),
        }),
        (published matches Some(d) ==> d.wf()) ==> (plan.published matches Some(e) ==> e.wf()),
{
    let date = match published {
        Some(d) => Some(d),
        None => published_from_filename(path, windows),
    };
    LoadPlan { path: String::from_str(path), published: date }
}

/// The message someone sees on a fresh install. It is the first thing a new
/// user reads, so it says exactly what to do next.
pub open spec fn no_registry_text(dir: Seq<char>) -> Seq<char> {
    "no MIC registry found in "@ + dir
        + "\n\nRun `diurn mic fetch` to download the current one, or point at a file you already have with --path.\nNothing is bundled with this command on purpose: a built-in copy would go stale without saying so."@
}

/// Where the message says it looked: the data directory, or a description of
/// it when none could be determined.
pub open spec fn looked_in(dir: Result<DataDir, NoDataDir>) -> Seq<char> {
    match dir {
        Ok(d) => d.path@,
        Err(_) => "the data directory"@,
    }
}

/// The explanation given when no registry file is available.
pub fn no_registry_available(dir: &Result<DataDir, NoDataDir>) -> (msg: String)
    ensures
        msg@ == no_registry_text(looked_in(*dir)),
{
    let mut msg = String::from_str("no MIC registry found in ");
    match dir {
        Ok(d) => msg.append(d.path.as_str()),
        Err(_) => msg.append("the data directory"),
    }
    msg.append(
        "\n\nRun `diurn mic fetch` to download the current one, or point at a file you already have with --path.\nNothing is bundled with this command on purpose: a built-in copy would go stale without saying so.",
    );
    msg
}

/// Nothing to read: no `--path` was given and the data directory holds no
/// registry file.
#[derive(Debug, PartialEq, Eq)]
pub struct NoRegistry {
    pub message: String,
}

/// Which registry a read-only command uses: the file it was given, or else the
/// first of the available vintages (newest first, see [`newest_first`]).
pub fn load(
    path: Option<&str>,
    published: Option<Date>,
    available: &Vec<Vintage>,
    dir: &Result<DataDir, NoDataDir>,
    windows: bool,
) -> (r: Result<LoadPlan, NoRegistry>)
    ensures
        match r {
            Ok(plan) => {
                let chosen = match path {
                    Some(p) => p@,
                    None => available@[0].path@,
                };
                &&& path is None ==> available@.len() > 0
                &&& plan.path@ == chosen
                &&& plan.published == (match published {
                    Some(d) => Some(d),
                    None => dated_by_filename(chosen, windows),
                })
                &&& (published matches Some(d) ==> d.wf()) ==> (plan.published matches Some(e) ==> e.wf())
            },
            Err(e) => path is None && available@.len() == 0 && e.message@ == no_registry_text(
                looked_in(*dir),
            ),
        },
{
    match path {
        Some(p) => Ok(load_path(p, published, windows)),
        None => {
            if available.len() == 0 {
                Err(NoRegistry { message: no_registry_available(dir) })
            } else {
                Ok(load_path(available[0].path.as_str(), published, windows))
            }
        },
    }
}


/// No vintage outranks itself, and of two vintages at most one outranks the
/// other; vintages that rank equally outrank neither.
proof fn lemma_outranks_asymmetric(a: Vintage, b: Vintage)
    ensures
        outranks(a, b) ==> !outranks(b, a),
        same_rank(a, b) ==> !outranks(a, b) && !outranks(b, a),
{
    if a.published is Some && b.published is Some && a.published != b.published {
        let x = a.published->0;
        let y = b.published->0;
        if y.precedes(x) {
            assert(!x.precedes(y));
        }
    }
}

/// A command given no `--path` reads the newest vintage: nothing available
/// outranks the first one listed.
pub proof fn the_first_listed_is_the_newest(found: Seq<Vintage>, out: Seq<Vintage>, order: Seq<usize>)
    requires
        listed_newest_first(found, out, order),
        0 < found.len() <= usize::MAX,
    ensures
        forall|k: int| 0 <= k < found.len() ==> !outranks(#[trigger] found[k], out[0]),
{
    assert forall|k: int| 0 <= k < found.len() implies !outranks(#[trigger] found[k], out[0]) by {
        assert(order.contains(k as usize));
        let p = choose|p: int| 0 <= p < order.len() && order[p] == k as usize;
        assert(out[p] == found[order[p] as int]);
        assert(order[p] as int == k);
        lemma_outranks_asymmetric(out[0], out[p]);
        lemma_outranks_asymmetric(out[p], out[0]);
        if p > 0 {
            assert(outranks(out[0], out[p]) || (same_rank(out[0], out[p]) && order[0] < order[p]));
        }
    }
}

/// Newest first means what the calendar says: of two dated vintages, none is
/// listed before one published on a later day, and no undated vintage is
/// listed before a dated one.
pub proof fn later_publications_are_listed_first(found: Seq<Vintage>, out: Seq<Vintage>, order: Seq<usize>)
    requires
        listed_newest_first(found, out, order),
    ensures
        forall|a: int, b: int|
            0 <= a < b < out.len() ==> match ((#[trigger] out[a]).published, (#[trigger] out[b]).published) {
                (Some(x), Some(y)) => !(x.year < y.year || (x.year == y.year && x.month < y.month) || (x.year
                    == y.year && x.month == y.month && x.day < y.day)),
                (None, Some(_)) => false,
                _ => true,
            },
{
    assert forall|a: int, b: int| 0 <= a < b < out.len() implies match ((#[trigger] out[a]).published, (
    #[trigger] out[b]).published) {
        (Some(x), Some(y)) => !(x.year < y.year || (x.year == y.year && x.month < y.month) || (x.year == y.year
            && x.month == y.month && x.day < y.day)),
        (None, Some(_)) => false,
        _ => true,
    } by {
        assert(outranks(out[a], out[b]) || same_rank(out[a], out[b]));
    }
}

/// A non-empty `DIURN_DATA_DIR` is the data directory, on every platform.
pub proof fn the_override_wins(env: Environment, platform: Platform)
    requires
        env.data_dir_override matches Some(d) && d@.len() > 0,
    ensures
        chosen_data_dir(env, platform) == Some((env.data_dir_override->0@, None::<Seq<char>>)),
{
}

/// An empty `DIURN_DATA_DIR` counts as unset: it never becomes the current
/// directory.
pub proof fn an_empty_override_is_unset(env: Environment, platform: Platform)
    requires
        env.data_dir_override matches Some(d) && d@.len() == 0,
    ensures
        chosen_data_dir(env, platform) == chosen_data_dir(Environment { data_dir_override: None, ..env }, platform),
{
}

/// A component `snap` of `pre + rel`, where `pre` is `base` ended by a
/// separator (or empty), would be one of `base` or of `rel`.
proof fn lemma_no_snap_across(base: Seq<char>, pre: Seq<char>, rel: Seq<char>, i: int, j: int)
    requires
        pre == base || pre == base.push('/'),
        pre.len() == 0 || pre.last() == '/',
        !has_snap_component(base),
        !has_snap_component(rel),
        component_at(pre + rel, i, j),
    ensures
        (pre + rel).subrange(i, j) != seq!['s', 'n', 'a', 'p'],
{
    let s = pre + rel;
    let snap = seq!['s', 'n', 'a', 'p'];
    let off = pre.len() as int;
    if s.subrange(i, j) == snap {
        assert(s.subrange(i, j).len() == 4);
        assert(j == i + 4);
        if j <= off {
            if j == off {
                assert(s[j - 1] == '/');
                assert(s.subrange(i, j)[3] == s[j - 1]);
            }
            assert(j < off);
            assert(base.subrange(i, j) =~= s.subrange(i, j));
            if pre == base {
                assert(component_at(base, i, j));
            } else {
                assert(j <= base.len());
                assert(component_at(base, i, j));
            }
        } else if i >= off {
            assert(rel.subrange(i - off, j - off) =~= s.subrange(i, j));
            assert(component_at(rel, i - off, j - off));
        } else {
            assert(s[off - 1] == '/');
            assert(s.subrange(i, j)[off - 1 - i] == s[off - 1]);
        }
    }
}

/// The components of `base` joined with `rel` are those of the one and those
/// of the other: no component spans the separator.
proof fn lemma_joined_components(base: Seq<char>, rel: Seq<char>)
    requires
        !has_snap_component(base),
        !has_snap_component(rel),
    ensures
        !has_snap_component(joined(base, rel, false)),
{
    let s = joined(base, rel, false);
    let pre = if base.len() == 0 || base.last() == '/' {
        base
    } else {
        base.push('/')
    };
    assert(s =~= pre + rel);
    assert forall|i: int, j: int| component_at(s, i, j) implies #[trigger] s.subrange(i, j) != seq![
        's',
        'n',
        'a',
        'p',
    ] by {
        lemma_no_snap_across(base, pre, rel, i, j);
    }
}

/// An absolute `XDG_DATA_HOME` outside any snap's tree is honoured on Unix:
/// the data directory is its `diurn` subdirectory, with nothing to explain.
pub proof fn a_users_own_xdg_is_used(env: Environment)
    requires
        env.data_dir_override is None || env.data_dir_override->0@.len() == 0,
        env.xdg_data_home matches Some(x) && x@.len() > 0 && x@[0] == '/' && !has_snap_component(x@),
    ensures
        chosen_data_dir(env, Platform::Unix) == Some((joined(env.xdg_data_home->0@, "diurn"@, false), None::<Seq<char>>)),
{
}

/// A snap-private `XDG_DATA_HOME` is declined: the data directory falls back
/// to `~/.local/share/diurn`, which is not inside a snap's tree unless the
/// home directory itself is, and a note explains why.
pub proof fn a_snap_private_xdg_is_declined(env: Environment)
    requires
        env.data_dir_override is None || env.data_dir_override->0@.len() == 0,
        env.xdg_data_home matches Some(x) && x@.len() > 0 && x@[0] == '/' && has_snap_component(x@),
        home_of(env) matches Some(h) && !has_snap_component(h),
    ensures
        chosen_data_dir(env, Platform::Unix) == Some((
            joined(home_of(env)->0, ".local/share/diurn"@, false),
            Some(snap_note(env.xdg_data_home->0@)),
        )),
        !has_snap_component(joined(home_of(env)->0, ".local/share/diurn"@, false)),
{
    reveal_strlit(".local/share/diurn");
    let r = ".local/share/diurn"@;
    let snap = seq!['s', 'n', 'a', 'p'];
    assert forall|i: int, j: int| component_at(r, i, j) implies #[trigger] r.subrange(i, j) != snap by {
        if r.subrange(i, j) == snap {
            assert(r.subrange(i, j).len() == 4);
            assert(r.subrange(i, j)[0] == r[i]);
            assert(r.subrange(i, j)[1] == r[i + 1]);
        }
    }
    lemma_joined_components(home_of(env)->0, r);
}

} // verus!
