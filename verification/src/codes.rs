//! The registry's fixed-width codes and names, read with `diurn-mic`.

use vstd::prelude::*;
use crate::text::trim;
use diurn_mic::{CountryCode, MarketCategory, Mic, Status};

verus! {

pub open spec fn is_ascii_alphabetic(c: char) -> bool {
    ('A' <= c && c <= 'Z') || ('a' <= c && c <= 'z')
}

pub open spec fn is_ascii_alphanumeric(c: char) -> bool {
    is_ascii_alphabetic(c) || ('0' <= c && c <= '9')
}

/// ASCII upper case; every other character unchanged.
pub open spec fn ascii_upper(c: char) -> char {
    if 'a' <= c && c <= 'z' {
        ((c as u32) - 32) as char
    } else {
        c
    }
}

pub open spec fn upper_text(s: Seq<char>) -> Seq<char> {
    s.map_values(|c: char| ascii_upper(c))
}

/// `s` has `n` characters, each ASCII alphanumeric (or, with `letters_only`,
/// each an ASCII letter): the shape of a MIC, category or country code.
pub open spec fn code_shaped(s: Seq<char>, n: int, letters_only: bool) -> bool {
    &&& s.len() == n
    &&& forall|i: int|
        0 <= i < n ==> if letters_only {
            is_ascii_alphabetic(#[trigger] s[i])
        } else {
            is_ascii_alphanumeric(s[i])
        }
}

/// `diurn_mic::Mic::new`: accepts four ASCII alphanumeric characters (it
/// checks four bytes, which for any other text fails on length or character)
/// and keeps them in upper case.
#[verifier::external_body]
pub(crate) fn parse_mic_code(s: &str) -> (r: Option<String>)
    ensures
        r is Some <==> code_shaped(s@, 4, false),
        r matches Some(c) ==> c@ == upper_text(s@),
{
    Mic::new(s).ok().map(|m| m.as_str().to_string())
}

/// `diurn_mic::CountryCode::new`: accepts two ASCII letters and keeps them in
/// upper case.
#[verifier::external_body]
pub(crate) fn parse_country_code(s: &str) -> (r: Option<String>)
    ensures
        r is Some <==> code_shaped(s@, 2, true),
        r matches Some(c) ==> c@ == upper_text(s@),
{
    CountryCode::new(s).ok().map(|c| c.as_str().to_string())
}

/// `diurn_mic::MarketCategory::new`: accepts four ASCII alphanumeric
/// characters, known or not, and keeps them in upper case.
#[verifier::external_body]
pub(crate) fn parse_category_code(s: &str) -> (r: Option<String>)
    ensures
        r is Some <==> code_shaped(s@, 4, false),
        r matches Some(c) ==> c@ == upper_text(s@),
{
    MarketCategory::new(s).ok().map(|c| c.as_str().to_string())
}

/// The sixteen registered market categories, as `diurn-mic` lists them: each
/// code with ISO's name for it.
pub open spec fn category_table() -> Seq<(Seq<char>, Seq<char>)> {
    seq![
        ("ATSS"@, "Alternative Trading System"@),
        ("APPA"@, "Approved Publication Arrangement"@),
        ("ARMS"@, "Approved Reporting Mechanism"@),
        ("CTPS"@, "Consolidated Tape Provider"@),
        ("CASP"@, "Crypto Asset Services Provider"@),
        ("DCMS"@, "Designated Contract Market"@),
        ("IDQS"@, "Inter-Dealer Quotation System"@),
        ("MLTF"@, "Multilateral Trading Facility"@),
        ("NSPD"@, "Not Specified"@),
        ("OTFS"@, "Organised Trading Facility"@),
        ("OTHR"@, "Other"@),
        ("RMOS"@, "Recognised Market Operator"@),
        ("RMKT"@, "Regulated Market"@),
        ("SEFS"@, "Swap Execution Facility"@),
        ("SINT"@, "Systematic Internaliser"@),
        ("TRFS"@, "Trade Reporting Facility"@),
    ]
}

/// `name`, trimmed, spells the category name `d` up to ASCII case. The names
/// are ASCII, so this is what a byte-wise comparison ignoring ASCII case says.
pub open spec fn names_category(name: Seq<char>, d: Seq<char>) -> bool {
    upper_text(trim(name)) == upper_text(d)
}

/// The code of the first listed category whose name `name` spells.
pub open spec fn category_named(name: Seq<char>) -> Option<Seq<char>> {
    if exists|i: int| 0 <= i < category_table().len() && #[trigger] names_category(name, category_table()[i].1) {
        let i = choose|i: int|
            0 <= i < category_table().len() && #[trigger] names_category(name, category_table()[i].1)
                && forall|j: int| 0 <= j < i ==> !names_category(name, #[trigger] category_table()[j].1);
        Some(category_table()[i].0)
    } else {
        None
    }
}

/// `diurn_mic::MarketCategory::from_description`, reporting the code: the
/// first category of its table whose name the trimmed text spells, ignoring
/// ASCII case. Its codes are four characters long.
#[verifier::external_body]
pub(crate) fn category_from_name(s: &str) -> (r: Option<String>)
    ensures
        r matches Some(c) ==> category_named(s@) == Some(c@) && c@.len() == 4,
        r is None ==> category_named(s@) is None,
{
    MarketCategory::from_description(s).map(|c| c.as_str().to_string())
}

/// The registration statuses, as the registry spells them.
pub open spec fn status_codes() -> Seq<Seq<char>> {
    seq![
        seq!['A', 'C', 'T', 'I', 'V', 'E'],
        seq!['U', 'P', 'D', 'A', 'T', 'E', 'D'],
        seq!['E', 'X', 'P', 'I', 'R', 'E', 'D'],
    ]
}

/// `<diurn_mic::Status as FromStr>::from_str`: the text, trimmed and in ASCII
/// upper case, must be one of the three statuses; reports it as spelled.
#[verifier::external_body]
pub(crate) fn parse_status_code(s: &str) -> (r: Option<String>)
    ensures
        r is Some <==> status_codes().contains(upper_text(trim(s@))),
        r matches Some(c) ==> c@ == upper_text(trim(s@)),
{
    s.parse::<Status>().ok().map(|st| st.as_str().to_string())
}

/// What a category filter means: a code, or else ISO's full name for one.
pub open spec fn category_meant(s: Seq<char>) -> Option<Seq<char>> {
    if code_shaped(s, 4, false) {
        Some(upper_text(s))
    } else {
        category_named(s)
    }
}

/// A market category from its code or its ISO name, so `Regulated Market`
/// works as well as `RMKT`.
pub fn parse_category(s: &str) -> (r: Option<String>)
    ensures
        match r {
            Some(c) => category_meant(s@) == Some(c@),
            None => category_meant(s@) is None,
        },
{
    match parse_category_code(s) {
        Some(c) => Some(c),
        None => category_from_name(s),
    }
}

} // verus!
