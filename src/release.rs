//! The release descriptor and the parse that builds it from the lines of a
//! `Release` or `InRelease` file.

use vstd::prelude::*;
use crate::builder::{completeness, interpret, interpret_run, opt_lines, ReleaseModel};
use crate::control::{logical_lines, tokenize};
use crate::envelope::{opt_view, strip_envelope, strip_spec};
use crate::error::{ErrorModel, ReleaseError};
use crate::manifest::{entries_view, manifest_wf, EntryModel, HashedFile};
use crate::sections::{manifest_of, reconcile};
use crate::text::{copy_range, find_invalid_line, first_invalid_line};

verus! {

/// The abstract content of a [`ReleaseDescriptor`].
pub struct DescriptorModel {
    pub origin: Option<Seq<u8>>,
    pub label: Option<Seq<u8>>,
    pub suite: Seq<u8>,
    pub codename: Seq<u8>,
    pub version: Option<Seq<u8>>,
    pub components: Seq<Seq<u8>>,
    pub architectures: Seq<Seq<u8>>,
    pub date: i64,
    pub valid_until: Option<i64>,
    pub not_automatic: Option<bool>,
    pub but_automatic_upgrades: Option<bool>,
    pub acquire_by_hash: Option<bool>,
    pub signed_by: Option<Seq<Seq<u8>>>,
    pub manifest: Seq<EntryModel>,
}

/// One repository snapshot as its release document describes it. Times are
/// Unix seconds in UTC. Boolean fields are `Some(true)` where the document
/// asserts them and `None` where it does not.
#[derive(Debug)]
pub struct ReleaseDescriptor {
    pub origin: Option<Vec<u8>>,
    pub label: Option<Vec<u8>>,
    pub suite: Vec<u8>,
    pub codename: Vec<u8>,
    pub version: Option<Vec<u8>>,
    pub components: Vec<Vec<u8>>,
    pub architectures: Vec<Vec<u8>>,
    pub date: i64,
    pub valid_until: Option<i64>,
    pub not_automatic: Option<bool>,
    pub but_automatic_upgrades: Option<bool>,
    pub acquire_by_hash: Option<bool>,
    pub signed_by: Option<Vec<Vec<u8>>>,
    pub manifest: Vec<HashedFile>,
}

impl View for ReleaseDescriptor {
    type V = DescriptorModel;

    open spec fn view(&self) -> DescriptorModel {
        DescriptorModel {
            origin: opt_view(self.origin),
            label: opt_view(self.label),
            suite: self.suite@,
            codename: self.codename@,
            version: opt_view(self.version),
            components: self.components.deep_view(),
            architectures: self.architectures.deep_view(),
            date: self.date,
            valid_until: self.valid_until,
            not_automatic: self.not_automatic,
            but_automatic_upgrades: self.but_automatic_upgrades,
            acquire_by_hash: self.acquire_by_hash,
            signed_by: opt_lines(self.signed_by),
            manifest: entries_view(self.manifest@),
        }
    }
}

/// The descriptor made of checked fields and a manifest.
pub open spec fn descriptor_of(b: ReleaseModel, m: Seq<EntryModel>) -> DescriptorModel {
    DescriptorModel {
        origin: b.origin,
        label: b.label,
        suite: b.suite->Some_0,
        codename: b.codename->Some_0,
        version: b.version,
        components: b.components,
        architectures: b.architectures,
        date: b.date->Some_0,
        valid_until: b.valid_until,
        not_automatic: b.not_automatic,
        but_automatic_upgrades: b.but_automatic_upgrades,
        acquire_by_hash: b.acquire_by_hash,
        signed_by: b.signed_by,
        manifest: m,
    }
}

/// The fields that the text of a release document gives, checked.
pub open spec fn release_fields(text: Seq<Seq<u8>>) -> Result<ReleaseModel, ErrorModel> {
    match logical_lines(text) {
        Err(e) => Err(e),
        Ok(ls) => match interpret_run(ls) {
            Err(e) => Err(e),
            Ok(b) => match completeness(b) {
                Err(e) => Err(e),
                Ok(_) => Ok(b),
            },
        },
    }
}

/// The descriptor that the lines of a `Release` or `InRelease` file give:
/// envelope first, then fields, then the mandatory-field check, then the
/// hash sections. The first failure is the result; a line that is not
/// well-formed UTF-8 fails before all of them.
pub open spec fn release_of(lines: Seq<Seq<u8>>) -> Result<DescriptorModel, ErrorModel> {
    if let Some(bad) = first_invalid_line(lines) {
        Err(ErrorModel::MalformedField(bad))
    } else {
        release_of_text(lines)
    }
}

/// The descriptor that lines of well-formed UTF-8 give.
pub open spec fn release_of_text(lines: Seq<Seq<u8>>) -> Result<DescriptorModel, ErrorModel> {
    match strip_spec(lines) {
        Err(f) => Err(ErrorModel::Envelope(f)),
        Ok(env) => match release_fields(env.interior) {
            Err(e) => Err(e),
            Ok(b) => match manifest_of(env.interior) {
                Err(e) => Err(e),
                Ok(m) => Ok(descriptor_of(b, m)),
            },
        },
    }
}

/// Parses the lines of a `Release` or `InRelease` file into a descriptor.
pub fn parse_release(lines: &Vec<Vec<u8>>) -> (r: Result<ReleaseDescriptor, ReleaseError>)
    ensures
        match release_of(lines.deep_view()) {
            Ok(d) => r is Ok && r->Ok_0@ == d && manifest_wf(d.manifest),
            Err(e) => r is Err && r->Err_0@ == e,
        },
{
    if let Some(i) = find_invalid_line(lines) {
        let l = copy_range(lines[i].as_slice(), 0, lines[i].len());
        assert(l@ =~= lines@[i as int]@);
        return Err(ReleaseError::MalformedFieldError { line: l });
    }
    let env = strip_envelope(lines)?;
    let fields = tokenize(&env.interior)?;
    let b = interpret(&fields)?;
    b.check_complete()?;
    let manifest = reconcile(&env.interior)?;
    let ghost bm = b@;
    let d = ReleaseDescriptor {
        origin: b.origin,
        label: b.label,
        suite: b.suite.unwrap(),
        codename: b.codename.unwrap(),
        version: b.version,
        components: b.components,
        architectures: b.architectures,
        date: b.date.unwrap(),
        valid_until: b.valid_until,
        not_automatic: b.not_automatic,
        but_automatic_upgrades: b.but_automatic_upgrades,
        acquire_by_hash: b.acquire_by_hash,
        signed_by: b.signed_by,
        manifest,
    };
    assert(d@ == descriptor_of(bm, entries_view(d.manifest@)));
    Ok(d)
}

} // verus!
