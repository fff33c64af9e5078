//! The accumulator of typed fields, fed one logical line at a time, and the
//! check that closes it.

use vstd::prelude::*;
use crate::envelope::opt_view;
use crate::error::{ErrorModel, ReleaseError, ReleaseField};
use crate::fields::{
    date_value, field_name, field_value, parse_date_value, parse_yes_flag, split_field, word_set,
    yes_flag,
};
use crate::keywords::{
    acquire_by_hash, acquire_by_hash_spec, architectures, architectures_spec, but_automatic_upgrades,
    but_automatic_upgrades_spec, codename, codename_spec, components, components_spec, date,
    date_spec, label, label_spec, not_automatic, not_automatic_spec, origin, origin_spec, signed_by,
    signed_by_spec, suite, suite_spec, valid_until, valid_until_spec, version, version_spec,
};
use crate::text::{bytes_eq, copy_range, distinct, distinct_of, split_words, words};

verus! {

/// The abstract content of a [`ReleaseBuilder`].
pub struct ReleaseModel {
    pub origin: Option<Seq<u8>>,
    pub label: Option<Seq<u8>>,
    pub suite: Option<Seq<u8>>,
    pub codename: Option<Seq<u8>>,
    pub version: Option<Seq<u8>>,
    pub date: Option<i64>,
    pub valid_until: Option<i64>,
    pub valid_until_text: Seq<u8>,
    pub components: Seq<Seq<u8>>,
    pub architectures: Seq<Seq<u8>>,
    pub signed_by: Option<Seq<Seq<u8>>>,
    pub not_automatic: Option<bool>,
    pub but_automatic_upgrades: Option<bool>,
    pub acquire_by_hash: Option<bool>,
}

pub open spec fn empty_release() -> ReleaseModel {
    ReleaseModel {
        origin: None,
        label: None,
        suite: None,
        codename: None,
        version: None,
        date: None,
        valid_until: None,
        valid_until_text: seq![],
        components: seq![],
        architectures: seq![],
        signed_by: None,
        not_automatic: None,
        but_automatic_upgrades: None,
        acquire_by_hash: None,
    }
}

/// One logical line read into the fields. Scalar fields keep the last
/// occurrence; list fields hold the distinct words of their value, in order
/// of first occurrence, and the mandatory ones fail without words; names
/// outside the schema are ignored.
pub open spec fn interpret_step(b: ReleaseModel, line: Seq<u8>) -> Result<ReleaseModel, ErrorModel> {
    match (field_name(line), field_value(line)) {
        (Some(name), Some(value)) => {
            if name == origin_spec() {
                Ok(ReleaseModel { origin: Some(value), ..b })
            } else if name == label_spec() {
                Ok(ReleaseModel { label: Some(value), ..b })
            } else if name == suite_spec() {
                Ok(ReleaseModel { suite: Some(value), ..b })
            } else if name == codename_spec() {
                Ok(ReleaseModel { codename: Some(value), ..b })
            } else if name == version_spec() {
                Ok(ReleaseModel { version: Some(value), ..b })
            } else if name == date_spec() {
                match date_value(value) {
                    Ok(t) => Ok(ReleaseModel { date: Some(t), ..b }),
                    Err(e) => Err(e),
                }
            } else if name == valid_until_spec() {
                match date_value(value) {
                    Ok(t) => Ok(ReleaseModel { valid_until: Some(t), valid_until_text: value, ..b }),
                    Err(e) => Err(e),
                }
            } else if name == components_spec() {
                if words(value).len() == 0 {
                    Err(ErrorModel::IncompleteRelease(seq![ReleaseField::Components]))
                } else {
                    Ok(ReleaseModel { components: distinct(words(value)), ..b })
                }
            } else if name == architectures_spec() {
                if words(value).len() == 0 {
                    Err(ErrorModel::IncompleteRelease(seq![ReleaseField::Architectures]))
                } else {
                    Ok(ReleaseModel { architectures: distinct(words(value)), ..b })
                }
            } else if name == signed_by_spec() {
                Ok(ReleaseModel { signed_by: Some(distinct(words(value))), ..b })
            } else if name == not_automatic_spec() {
                Ok(ReleaseModel { not_automatic: yes_flag(value), ..b })
            } else if name == but_automatic_upgrades_spec() {
                Ok(ReleaseModel { but_automatic_upgrades: yes_flag(value), ..b })
            } else if name == acquire_by_hash_spec() {
                Ok(ReleaseModel { acquire_by_hash: yes_flag(value), ..b })
            } else {
                Ok(b)
            }
        },
        _ => Err(ErrorModel::MalformedField(line)),
    }
}

/// The fields after all of `lines`, or the first error.
pub open spec fn interpret_run(lines: Seq<Seq<u8>>) -> Result<ReleaseModel, ErrorModel>
    decreases lines.len(),
{
    if lines.len() == 0 {
        Ok(empty_release())
    } else {
        match interpret_run(lines.drop_last()) {
            Ok(b) => interpret_step(b, lines.last()),
            Err(e) => Err(e),
        }
    }
}

pub open spec fn missing_if(absent: bool, f: ReleaseField) -> Seq<ReleaseField> {
    if absent {
        seq![f]
    } else {
        seq![]
    }
}

/// The mandatory fields that are absent or empty, in schema order.
pub open spec fn missing_fields(b: ReleaseModel) -> Seq<ReleaseField> {
    missing_if(b.suite is None, ReleaseField::Suite) + missing_if(b.codename is None, ReleaseField::Codename)
        + missing_if(b.date is None, ReleaseField::Date) + missing_if(
        b.architectures.len() == 0,
        ReleaseField::Architectures,
    ) + missing_if(b.components.len() == 0, ReleaseField::Components)
}

/// Whether the fields make a release: the mandatory ones present, and a
/// `Valid-Until` strictly after the `Date`.
pub open spec fn completeness(b: ReleaseModel) -> Result<(), ErrorModel> {
    if missing_fields(b).len() > 0 {
        Err(ErrorModel::IncompleteRelease(missing_fields(b)))
    } else if b.valid_until is Some && b.valid_until->Some_0 <= b.date->Some_0 {
        Err(ErrorModel::DateParse(b.valid_until_text))
    } else {
        Ok(())
    }
}

pub open spec fn opt_lines(o: Option<Vec<Vec<u8>>>) -> Option<Seq<Seq<u8>>> {
    match o {
        Some(v) => Some(v.deep_view()),
        None => None,
    }
}

/// Typed fields gathered from a release document, before the final check.
#[derive(Debug)]
pub struct ReleaseBuilder {
    pub origin: Option<Vec<u8>>,
    pub label: Option<Vec<u8>>,
    pub suite: Option<Vec<u8>>,
    pub codename: Option<Vec<u8>>,
    pub version: Option<Vec<u8>>,
    pub date: Option<i64>,
    pub valid_until: Option<i64>,
    pub valid_until_text: Vec<u8>,
    pub components: Vec<Vec<u8>>,
    pub architectures: Vec<Vec<u8>>,
    pub signed_by: Option<Vec<Vec<u8>>>,
    pub not_automatic: Option<bool>,
    pub but_automatic_upgrades: Option<bool>,
    pub acquire_by_hash: Option<bool>,
}

impl View for ReleaseBuilder {
    type V = ReleaseModel;

    open spec fn view(&self) -> ReleaseModel {
        ReleaseModel {
            origin: opt_view(self.origin),
            label: opt_view(self.label),
            suite: opt_view(self.suite),
            codename: opt_view(self.codename),
            version: opt_view(self.version),
            date: self.date,
            valid_until: self.valid_until,
            valid_until_text: self.valid_until_text@,
            components: self.components.deep_view(),
            architectures: self.architectures.deep_view(),
            signed_by: opt_lines(self.signed_by),
            not_automatic: self.not_automatic,
            but_automatic_upgrades: self.but_automatic_upgrades,
            acquire_by_hash: self.acquire_by_hash,
        }
    }
}

impl ReleaseBuilder {
    /// A builder with no field set.
    pub fn new() -> (r: ReleaseBuilder)
        ensures
            r@ == empty_release(),
    {
        let r = ReleaseBuilder {
            origin: None,
            label: None,
            suite: None,
            codename: None,
            version: None,
            date: None,
            valid_until: None,
            valid_until_text: Vec::new(),
            components: Vec::new(),
            architectures: Vec::new(),
            signed_by: None,
            not_automatic: None,
            but_automatic_upgrades: None,
            acquire_by_hash: None,
        };
        assert(r@.components =~= seq![]);
        assert(r@.architectures =~= seq![]);
        assert(r@.valid_until_text =~= seq![]);
        r
    }

    /// Reads one logical line into the fields.
    pub fn apply(&mut self, line: &[u8]) -> (r: Result<(), ReleaseError>)
        ensures
            match interpret_step(old(self)@, line@) {
                Ok(m) => r is Ok && final(self)@ == m,
                Err(e) => r is Err && r->Err_0@ == e,
            },
    {
        let (name, value) = match split_field(line) {
            Some(p) => p,
            None => {
                let l = copy_range(line, 0, line.len());
                assert(l@ =~= line@);
                return Err(ReleaseError::MalformedFieldError { line: l });
            },
        };
        let n = name.as_slice();
        if bytes_eq(n, origin().as_slice()) {
            self.origin = Some(value);
        } else if bytes_eq(n, label().as_slice()) {
            self.label = Some(value);
        } else if bytes_eq(n, suite().as_slice()) {
            self.suite = Some(value);
        } else if bytes_eq(n, codename().as_slice()) {
            self.codename = Some(value);
        } else if bytes_eq(n, version().as_slice()) {
            self.version = Some(value);
        } else if bytes_eq(n, date().as_slice()) {
            match parse_date_value(value.as_slice()) {
                Ok(t) => {
                    self.date = Some(t);
                },
                Err(e) => {
                    return Err(e);
                },
            }
        } else if bytes_eq(n, valid_until().as_slice()) {
            match parse_date_value(value.as_slice()) {
                Ok(t) => {
                    self.valid_until = Some(t);
                    self.valid_until_text = value;
                },
                Err(e) => {
                    return Err(e);
                },
            }
        } else if bytes_eq(n, components().as_slice()) {
            match word_set(value.as_slice(), ReleaseField::Components) {
                Ok(ws) => {
                    self.components = ws;
                },
                Err(e) => {
                    return Err(e);
                },
            }
        } else if bytes_eq(n, architectures().as_slice()) {
            match word_set(value.as_slice(), ReleaseField::Architectures) {
                Ok(ws) => {
                    self.architectures = ws;
                },
                Err(e) => {
                    return Err(e);
                },
            }
        } else if bytes_eq(n, signed_by().as_slice()) {
            self.signed_by = Some(distinct_of(&split_words(value.as_slice())));
        } else if bytes_eq(n, not_automatic().as_slice()) {
            self.not_automatic = parse_yes_flag(value.as_slice());
        } else if bytes_eq(n, but_automatic_upgrades().as_slice()) {
            self.but_automatic_upgrades = parse_yes_flag(value.as_slice());
        } else if bytes_eq(n, acquire_by_hash().as_slice()) {
            self.acquire_by_hash = parse_yes_flag(value.as_slice());
        }
        Ok(())
    }

    /// Checks that the fields make a release.
    pub fn check_complete(&self) -> (r: Result<(), ReleaseError>)
        ensures
            match completeness(self@) {
                Ok(()) => r is Ok,
                Err(e) => r is Err && r->Err_0@ == e,
            },
    {
        let mut missing: Vec<ReleaseField> = Vec::new();
        if self.suite.is_none() {
            missing.push(ReleaseField::Suite);
        }
        if self.codename.is_none() {
            missing.push(ReleaseField::Codename);
        }
        if self.date.is_none() {
            missing.push(ReleaseField::Date);
        }
        if self.architectures.len() == 0 {
            missing.push(ReleaseField::Architectures);
        }
        if self.components.len() == 0 {
            missing.push(ReleaseField::Components);
        }
        assert(missing@ =~= missing_fields(self@));
        if missing.len() > 0 {
            return Err(ReleaseError::IncompleteReleaseError { missing });
        }
        match (self.valid_until, self.date) {
            (Some(v), Some(d)) => if v <= d {
                let t = copy_range(self.valid_until_text.as_slice(), 0, self.valid_until_text.len());
                assert(t@ =~= self.valid_until_text@);
                return Err(ReleaseError::DateParseError { text: t });
            },
            _ => {},
        }
        Ok(())
    }
}

/// Reads the logical lines of a release document into fields.
pub fn interpret(lines: &Vec<Vec<u8>>) -> (r: Result<ReleaseBuilder, ReleaseError>)
    ensures
        match interpret_run(lines.deep_view()) {
            Ok(m) => r is Ok && r->Ok_0@ == m,
            Err(e) => r is Err && r->Err_0@ == e,
        },
{
    let mut b = ReleaseBuilder::new();
    let mut i: usize = 0;
    while i < lines.len()
        invariant
            i <= lines@.len(),
            interpret_run(lines.deep_view().take(i as int)) == Ok::<ReleaseModel, ErrorModel>(b@),
        decreases lines@.len() - i,
    {
        proof {
            assert(lines.deep_view().take(i + 1).drop_last() =~= lines.deep_view().take(i as int));
        }
        let line = lines[i].as_slice();
        assert(line@ == lines.deep_view()[i as int]);
        match b.apply(line) {
            Ok(()) => {},
            Err(e) => {
                proof {
                    lemma_interpret_run_stops(lines.deep_view(), i as int);
                }
                return Err(e);
            },
        }
        i = i + 1;
    }
    assert(lines.deep_view().take(i as int) =~= lines.deep_view());
    Ok(b)
}

proof fn lemma_interpret_run_stops(lines: Seq<Seq<u8>>, i: int)
    requires
        0 <= i < lines.len(),
        interpret_run(lines.take(i + 1)) is Err,
    ensures
        interpret_run(lines) == interpret_run(lines.take(i + 1)),
    decreases lines.len() - i,
{
    if i + 1 < lines.len() {
        assert(lines.take(i + 2).drop_last() =~= lines.take(i + 1));
        lemma_interpret_run_stops(lines, i + 1);
    } else {
        assert(lines.take(i + 1) =~= lines);
    }
}

} // verus!
