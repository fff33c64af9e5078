//! The field interpreter: logical lines of a release document read into typed
//! fields under a fixed schema, and the final check of mandatory fields.

use vstd::prelude::*;
use crate::error::{ErrorModel, ReleaseError, ReleaseField};
use crate::keywords::{
    cdt, cdt_spec, cst, cst_spec, edt, edt_spec, est, est_spec, gmt, gmt_spec, mdt, mdt_spec, mst,
    mst_spec, pdt, pdt_spec, pst, pst_spec, ut, ut_spec, utc, utc_spec, yes, yes_spec, zulu,
    zulu_spec,
};
use crate::text::{
    bytes_eq, bytes_eq_ignore_case, copy_range, distinct, distinct_of, eq_ignore_case, find_byte,
    first_index_of, split_words, trim, trim_bytes, words,
};

verus! {

/// The name of a field line: the bytes before its first colon.
pub open spec fn field_name(line: Seq<u8>) -> Option<Seq<u8>> {
    match first_index_of(line, 0x3au8) {
        Some(c) => Some(line.subrange(0, c)),
        None => None,
    }
}

/// The value of a field line: the bytes after its first colon, trimmed.
pub open spec fn field_value(line: Seq<u8>) -> Option<Seq<u8>> {
    match first_index_of(line, 0x3au8) {
        Some(c) => Some(trim(line.subrange(c + 1, line.len() as int))),
        None => None,
    }
}

/// The pattern of a timestamp field, in chrono's notation.
pub open spec fn date_pattern() -> Seq<char> {
    "%a, %d %b %Y %H:%M:%S %Z"@
}

/// The Unix time (seconds, UTC) that chrono's `NaiveDateTime::parse_from_str`
/// reads from the UTF-8 text `text` under `pattern`, or `None` where `text`
/// is not UTF-8 or does not match.
pub uninterp spec fn chrono_timestamp(text: Seq<u8>, pattern: Seq<char>) -> Option<i64>;

/// Relies on chrono's `NaiveDateTime::parse_from_str`, its result read as a
/// UTC time; the bytes reach it through std's `str::from_utf8`.
#[verifier::external_body]
fn parse_timestamp(text: &[u8], pattern: &str) -> (r: Option<i64>)
    ensures
        r == chrono_timestamp(text@, pattern@),
{
    match std::str::from_utf8(text) {
        Ok(s) => chrono::NaiveDateTime::parse_from_str(s, pattern).ok().map(|d| d.and_utc().timestamp()),
        Err(_) => None,
    }
}

/// The offset east of UTC, in seconds, of a named time zone: `UTC`, `UT`,
/// `GMT` and `Z`, and the North American zones of RFC 2822.
pub open spec fn zone_offset(name: Seq<u8>) -> Option<int> {
    if name == utc_spec() || name == ut_spec() || name == gmt_spec() || name == zulu_spec() {
        Some(0)
    } else if name == edt_spec() {
        Some(-4 * 3600)
    } else if name == est_spec() || name == cdt_spec() {
        Some(-5 * 3600)
    } else if name == cst_spec() || name == mdt_spec() {
        Some(-6 * 3600)
    } else if name == mst_spec() || name == pdt_spec() {
        Some(-7 * 3600)
    } else if name == pst_spec() {
        Some(-8 * 3600)
    } else {
        None
    }
}

/// The offset of the zone that ends a timestamp, if it is a known one.
pub open spec fn value_zone_offset(value: Seq<u8>) -> Option<int> {
    let ws = words(value);
    if ws.len() > 0 {
        zone_offset(ws.last())
    } else {
        None
    }
}

/// A timestamp field's value in UTC, given the local time that chrono read
/// from it: the local time less the offset of the named zone.
pub open spec fn date_result(value: Seq<u8>, parsed: Option<i64>) -> Result<i64, ErrorModel> {
    match (parsed, value_zone_offset(value)) {
        (Some(t), Some(off)) => if i64::MIN <= t - off <= i64::MAX {
            Ok((t - off) as i64)
        } else {
            Err(ErrorModel::DateParse(value))
        },
        _ => Err(ErrorModel::DateParse(value)),
    }
}

/// A timestamp field's value, from the value text.
pub open spec fn date_value(value: Seq<u8>) -> Result<i64, ErrorModel> {
    date_result(value, chrono_timestamp(value, date_pattern()))
}

/// The offset east of UTC, in seconds, of a named time zone.
pub fn offset_of_zone(name: &[u8]) -> (r: Option<i64>)
    ensures
        match zone_offset(name@) {
            Some(o) => r == Some(o as i64),
            None => r is None,
        },
{
    if bytes_eq(name, utc().as_slice()) || bytes_eq(name, ut().as_slice()) || bytes_eq(name, gmt().as_slice())
        || bytes_eq(name, zulu().as_slice()) {
        Some(0)
    } else if bytes_eq(name, edt().as_slice()) {
        Some(-4 * 3600)
    } else if bytes_eq(name, est().as_slice()) || bytes_eq(name, cdt().as_slice()) {
        Some(-5 * 3600)
    } else if bytes_eq(name, cst().as_slice()) || bytes_eq(name, mdt().as_slice()) {
        Some(-6 * 3600)
    } else if bytes_eq(name, mst().as_slice()) || bytes_eq(name, pdt().as_slice()) {
        Some(-7 * 3600)
    } else if bytes_eq(name, pst().as_slice()) {
        Some(-8 * 3600)
    } else {
        None
    }
}

/// Decides a timestamp field from its text and the local time that chrono
/// read from it: the time in UTC where chrono read one and the text ends in
/// a known zone.
pub fn date_from_parsed(value: &[u8], parsed: Option<i64>) -> (r: Result<i64, ReleaseError>)
    ensures
        match date_result(value@, parsed) {
            Ok(t) => r == Ok::<i64, ReleaseError>(t),
            Err(e) => r is Err && r->Err_0@ == e,
        },
{
    let ws = split_words(value);
    let n = ws.len();
    let off = if n > 0 {
        assert(ws[n - 1]@ == words(value@).last());
        offset_of_zone(ws[n - 1].as_slice())
    } else {
        None
    };
    match (parsed, off) {
        (Some(t), Some(o)) => match t.checked_sub(o) {
            Some(u) => Ok(u),
            None => Err(ReleaseError::DateParseError { text: value_copy(value) }),
        },
        _ => Err(ReleaseError::DateParseError { text: value_copy(value) }),
    }
}

fn value_copy(value: &[u8]) -> (r: Vec<u8>)
    ensures
        r@ == value@,
{
    let r = copy_range(value, 0, value.len());
    assert(r@ =~= value@);
    r
}

/// A timestamp from its value text.
pub fn parse_date_value(value: &[u8]) -> (r: Result<i64, ReleaseError>)
    ensures
        match date_value(value@) {
            Ok(t) => r == Ok::<i64, ReleaseError>(t),
            Err(e) => r is Err && r->Err_0@ == e,
        },
{
    let parsed = parse_timestamp(value, "%a, %d %b %Y %H:%M:%S %Z");
    date_from_parsed(value, parsed)
}

/// Splits a field line at its first colon into name and trimmed value.
pub fn split_field(line: &[u8]) -> (r: Option<(Vec<u8>, Vec<u8>)>)
    ensures
        match field_name(line@) {
            Some(name) => r is Some && r->Some_0.0@ == name && Some(r->Some_0.1@) == field_value(line@),
            None => r is None && field_value(line@) is None,
        },
{
    let n = line.len();
    match find_byte(line, 0x3au8) {
        Some(c) => {
            let name = copy_range(line, 0, c);
            let rest = copy_range(line, c + 1, n);
            Some((name, trim_bytes(rest.as_slice())))
        },
        None => None,
    }
}

fn malformed(line: &[u8]) -> (r: ReleaseError)
    ensures
        r@ == ErrorModel::MalformedField(line@),
{
    ReleaseError::MalformedFieldError { line: value_copy(line) }
}

/// The value of a `Suite:` line.
pub fn parse_a_suite(line: &[u8]) -> (r: Result<Vec<u8>, ReleaseError>)
    ensures
        match field_value(line@) {
            Some(v) => r is Ok && r->Ok_0@ == v,
            None => r is Err && r->Err_0@ == ErrorModel::MalformedField(line@),
        },
{
    match split_field(line) {
        Some((_, value)) => Ok(value),
        None => Err(malformed(line)),
    }
}

/// The value of a `Codename:` line.
pub fn parse_a_codename(line: &[u8]) -> (r: Result<Vec<u8>, ReleaseError>)
    ensures
        match field_value(line@) {
            Some(v) => r is Ok && r->Ok_0@ == v,
            None => r is Err && r->Err_0@ == ErrorModel::MalformedField(line@),
        },
{
    match split_field(line) {
        Some((_, value)) => Ok(value),
        None => Err(malformed(line)),
    }
}

/// The distinct words of a `Components:` line, in order of first
/// occurrence. The field is mandatory: a line without words fails.
pub fn parse_the_components(line: &[u8]) -> (r: Result<Vec<Vec<u8>>, ReleaseError>)
    ensures
        match field_value(line@) {
            Some(v) => if words(v).len() == 0 {
                r is Err && r->Err_0@ == ErrorModel::IncompleteRelease(seq![ReleaseField::Components])
            } else {
                r is Ok && r->Ok_0.deep_view() == distinct(words(v))
            },
            None => r is Err && r->Err_0@ == ErrorModel::MalformedField(line@),
        },
{
    match split_field(line) {
        Some((_, value)) => word_set(value.as_slice(), ReleaseField::Components),
        None => Err(malformed(line)),
    }
}

/// The distinct words of an `Architectures:` line, in order of first
/// occurrence. The field is mandatory: a line without words fails.
pub fn parse_the_architectures(line: &[u8]) -> (r: Result<Vec<Vec<u8>>, ReleaseError>)
    ensures
        match field_value(line@) {
            Some(v) => if words(v).len() == 0 {
                r is Err && r->Err_0@ == ErrorModel::IncompleteRelease(seq![ReleaseField::Architectures])
            } else {
                r is Ok && r->Ok_0.deep_view() == distinct(words(v))
            },
            None => r is Err && r->Err_0@ == ErrorModel::MalformedField(line@),
        },
{
    match split_field(line) {
        Some((_, value)) => word_set(value.as_slice(), ReleaseField::Architectures),
        None => Err(malformed(line)),
    }
}

/// The distinct words of a mandatory list field's value, in order of first
/// occurrence; a value without words fails, naming the field.
pub fn word_set(value: &[u8], field: ReleaseField) -> (r: Result<Vec<Vec<u8>>, ReleaseError>)
    ensures
        if words(value@).len() == 0 {
            r is Err && r->Err_0@ == ErrorModel::IncompleteRelease(seq![field])
        } else {
            r is Ok && r->Ok_0.deep_view() == distinct(words(value@))
        },
{
    let ws = split_words(value);
    if ws.len() == 0 {
        let mut missing: Vec<ReleaseField> = Vec::new();
        missing.push(field);
        assert(missing@ =~= seq![field]);
        return Err(ReleaseError::IncompleteReleaseError { missing });
    }
    Ok(distinct_of(&ws))
}

/// The time of a `Date:` line.
pub fn parse_a_date(line: &[u8]) -> (r: Result<i64, ReleaseError>)
    ensures
        match field_value(line@) {
            Some(v) => match date_value(v) {
                Ok(t) => r == Ok::<i64, ReleaseError>(t),
                Err(e) => r is Err && r->Err_0@ == e,
            },
            None => r is Err && r->Err_0@ == ErrorModel::MalformedField(line@),
        },
{
    match split_field(line) {
        Some((_, value)) => parse_date_value(value.as_slice()),
        None => Err(malformed(line)),
    }
}

/// An optional boolean field: asserted by `yes` in any case, else unspecified.
pub open spec fn yes_flag(value: Seq<u8>) -> Option<bool> {
    if eq_ignore_case(value, yes_spec()) {
        Some(true)
    } else {
        None
    }
}

pub fn parse_yes_flag(value: &[u8]) -> (r: Option<bool>)
    ensures
        r == yes_flag(value@),
{
    if bytes_eq_ignore_case(value, yes().as_slice()) {
        Some(true)
    } else {
        None
    }
}

} // verus!
