//! The hash sections of a release document (`MD5Sum:`, `SHA1:`, `SHA256:`,
//! `SHA512:`) merged into one record per path.

use vstd::prelude::*;
use crate::envelope::opt_view;
use crate::error::{ErrorModel, ReleaseError};
use crate::keywords::{
    bz2_suffix, bz2_suffix_spec, gz_suffix, gz_suffix_spec, lzma_suffix, lzma_suffix_spec, xz_suffix,
    xz_suffix_spec,
};
use crate::text::{bytes_eq, ends_with, has_suffix};

verus! {

/// Which compression an index file carries, inferred from its name.
#[allow(non_camel_case_types)]
#[derive(Debug, Clone, Copy, PartialEq, Eq, Structural)]
pub enum Compression {
    NONE,
    XZ,
    GZIP,
    BZIP2,
    LZMA,
}

impl Default for Compression {
    /// The default is uncompressed.
    fn default() -> (r: Compression)
        ensures
            r == Compression::NONE,
    {
        Compression::NONE
    }
}

/// A digest algorithm of a hash section.
#[derive(Debug, Clone, Copy, PartialEq, Eq, Structural)]
pub enum DigestAlgorithm {
    Md5,
    Sha1,
    Sha256,
    Sha512,
}

/// The compression that a path's suffix names.
pub open spec fn compression_of(path: Seq<u8>) -> Compression {
    if has_suffix(path, xz_suffix_spec()) {
        Compression::XZ
    } else if has_suffix(path, lzma_suffix_spec()) {
        Compression::LZMA
    } else if has_suffix(path, bz2_suffix_spec()) {
        Compression::BZIP2
    } else if has_suffix(path, gz_suffix_spec()) {
        Compression::GZIP
    } else {
        Compression::NONE
    }
}

/// The compression that a path's suffix names: `.xz`, `.lzma`, `.bz2`,
/// `.gz`, or none.
pub fn compression_from_path(path: &[u8]) -> (r: Compression)
    ensures
        r == compression_of(path@),
{
    if ends_with(path, xz_suffix().as_slice()) {
        Compression::XZ
    } else if ends_with(path, lzma_suffix().as_slice()) {
        Compression::LZMA
    } else if ends_with(path, bz2_suffix().as_slice()) {
        Compression::BZIP2
    } else if ends_with(path, gz_suffix().as_slice()) {
        Compression::GZIP
    } else {
        Compression::NONE
    }
}

/// The abstract content of a [`HashedFile`].
pub struct EntryModel {
    pub name: Seq<u8>,
    pub compression: Compression,
    pub size: usize,
    pub md5: Option<Seq<u8>>,
    pub sha1: Option<Seq<u8>>,
    pub sha256: Option<Seq<u8>>,
    pub sha512: Option<Seq<u8>>,
}

/// One file that a release lists: its path, size, compression and the
/// digests that the hash sections give for it.
#[derive(Debug)]
pub struct HashedFile {
    pub compression: Compression,
    pub md5: Option<Vec<u8>>,
    pub name: Vec<u8>,
    pub sha1: Option<Vec<u8>>,
    pub sha256: Option<Vec<u8>>,
    pub sha512: Option<Vec<u8>>,
    pub size: usize,
}

impl View for HashedFile {
    type V = EntryModel;

    open spec fn view(&self) -> EntryModel {
        EntryModel {
            name: self.name@,
            compression: self.compression,
            size: self.size,
            md5: opt_view(self.md5),
            sha1: opt_view(self.sha1),
            sha256: opt_view(self.sha256),
            sha512: opt_view(self.sha512),
        }
    }
}

pub open spec fn with_digest(e: EntryModel, a: DigestAlgorithm, d: Seq<u8>) -> EntryModel {
    match a {
        DigestAlgorithm::Md5 => EntryModel { md5: Some(d), ..e },
        DigestAlgorithm::Sha1 => EntryModel { sha1: Some(d), ..e },
        DigestAlgorithm::Sha256 => EntryModel { sha256: Some(d), ..e },
        DigestAlgorithm::Sha512 => EntryModel { sha512: Some(d), ..e },
    }
}

pub open spec fn has_digest(e: EntryModel) -> bool {
    e.md5 is Some || e.sha1 is Some || e.sha256 is Some || e.sha512 is Some
}

impl HashedFile {
    /// A file with no digest yet.
    pub fn new(name: Vec<u8>, compression: Compression, size: usize) -> (r: HashedFile)
        ensures
            r@ == (EntryModel { name: name@, compression, size, md5: None, sha1: None, sha256: None, sha512: None }),
    {
        HashedFile { compression, md5: None, name, sha1: None, sha256: None, sha512: None, size }
    }

    /// Whether the file carries a SHA-256 digest. Its absence is tolerated
    /// by the parse; a stricter verification policy may refuse such a file.
    pub fn has_sha256(&self) -> (r: bool)
        ensures
            r == self@.sha256 is Some,
    {
        self.sha256.is_some()
    }

    /// Records the digest of one algorithm.
    pub fn set_digest(&mut self, a: DigestAlgorithm, d: Vec<u8>)
        ensures
            final(self)@ == with_digest(old(self)@, a, d@),
    {
        match a {
            DigestAlgorithm::Md5 => self.md5 = Some(d),
            DigestAlgorithm::Sha1 => self.sha1 = Some(d),
            DigestAlgorithm::Sha256 => self.sha256 = Some(d),
            DigestAlgorithm::Sha512 => self.sha512 = Some(d),
        }
    }
}

/// The abstract content of a list of files.
pub open spec fn entries_view(m: Seq<HashedFile>) -> Seq<EntryModel> {
    m.map_values(|e: HashedFile| e@)
}

/// Every path listed once, each with at least one digest and the
/// compression that its name gives.
pub open spec fn manifest_wf(m: Seq<EntryModel>) -> bool {
    &&& forall|i: int, j: int| 0 <= i < j < m.len() ==> m[i].name != m[j].name
    &&& forall|i: int| 0 <= i < m.len() ==> has_digest(#[trigger] m[i])
    &&& forall|i: int| 0 <= i < m.len() ==> (#[trigger] m[i]).compression == compression_of(m[i].name)
}

/// The index of the entry for `path`, if any.
pub open spec fn path_index(m: Seq<EntryModel>, path: Seq<u8>) -> Option<int> {
    if exists|i: int| 0 <= i < m.len() && m[i].name == path {
        Some(choose|i: int| 0 <= i < m.len() && m[i].name == path)
    } else {
        None
    }
}

/// One digest line merged into the entries: a new entry on first sight of
/// the path, else the digest added to its entry, whose size must agree.
pub open spec fn merge(m: Seq<EntryModel>, a: DigestAlgorithm, d: Seq<u8>, size: usize, path: Seq<u8>) -> Result<Seq<EntryModel>, ErrorModel> {
    match path_index(m, path) {
        None => Ok(
            m.push(
                with_digest(
                    EntryModel {
                        name: path,
                        compression: compression_of(path),
                        size,
                        md5: None,
                        sha1: None,
                        sha256: None,
                        sha512: None,
                    },
                    a,
                    d,
                ),
            ),
        ),
        Some(k) => if m[k].size != size {
            Err(ErrorModel::InconsistentManifest(path))
        } else {
            Ok(m.update(k, with_digest(m[k], a, d)))
        },
    }
}

/// Merging keeps the entries well formed.
pub proof fn lemma_merge_wf(m: Seq<EntryModel>, a: DigestAlgorithm, d: Seq<u8>, size: usize, path: Seq<u8>)
    requires
        manifest_wf(m),
    ensures
        merge(m, a, d, size, path) matches Ok(m2) ==> manifest_wf(m2) && m2.len() >= m.len(),
{
    match path_index(m, path) {
        None => {
            let m2 = merge(m, a, d, size, path)->Ok_0;
            assert forall|i: int, j: int| 0 <= i < j < m2.len() implies m2[i].name != m2[j].name by {
                if j == m.len() {
                    assert(!(0 <= i < m.len() && m[i].name == path));
                }
            }
            assert forall|i: int| 0 <= i < m2.len() implies has_digest(#[trigger] m2[i]) by {
                if i < m.len() {
                    assert(m2[i] == m[i]);
                }
            }
            assert forall|i: int| 0 <= i < m2.len() implies (#[trigger] m2[i]).compression == compression_of(m2[i].name) by {
                if i < m.len() {
                    assert(m2[i] == m[i]);
                }
            }
        },
        Some(k) => {
            if m[k].size == size {
                let m2 = merge(m, a, d, size, path)->Ok_0;
                assert forall|i: int| 0 <= i < m2.len() implies has_digest(#[trigger] m2[i]) by {
                    if i != k {
                        assert(m2[i] == m[i]);
                    } else {
                        assert(has_digest(m[k]));
                    }
                }
                assert forall|i: int| 0 <= i < m2.len() implies (#[trigger] m2[i]).compression == compression_of(m2[i].name) by {
                    if i != k {
                        assert(m2[i] == m[i]);
                    } else {
                        assert(m[k].compression == compression_of(m[k].name));
                    }
                }
            }
        },
    }
}

/// Finds the entry for `path`.
fn find_path(m: &Vec<HashedFile>, path: &[u8]) -> (r: Option<usize>)
    ensures
        r matches Some(k) ==> k < m@.len() && m@[k as int]@.name == path@,
        r is None ==> path_index(entries_view(m@), path@) is None,
{
    let mut i: usize = 0;
    while i < m.len()
        invariant
            i <= m@.len(),
            forall|j: int| 0 <= j < i ==> m@[j]@.name != path@,
        decreases m@.len() - i,
    {
        if bytes_eq(m[i].name.as_slice(), path) {
            return Some(i);
        }
        i = i + 1;
    }
    proof {
        let v = entries_view(m@);
        assert forall|j: int| 0 <= j < v.len() implies v[j].name != path@ by {
            assert(v[j] == m@[j]@);
        }
    }
    None
}

/// Merges one digest line into the entries.
pub fn merge_entry(m: &mut Vec<HashedFile>, a: DigestAlgorithm, d: Vec<u8>, size: usize, path: Vec<u8>) -> (r: Result<(), ReleaseError>)
    requires
        manifest_wf(entries_view(old(m)@)),
    ensures
        match merge(entries_view(old(m)@), a, d@, size, path@) {
            Ok(m2) => r is Ok && entries_view(final(m)@) == m2,
            Err(e) => r is Err && r->Err_0@ == e,
        },
{
    let ghost v = entries_view(m@);
    match find_path(m, path.as_slice()) {
        None => {
            let c = compression_from_path(path.as_slice());
            let mut e = HashedFile::new(path, c, size);
            e.set_digest(a, d);
            m.push(e);
            assert(entries_view(m@) =~= v.push(e@));
            Ok(())
        },
        Some(k) => {
            proof {
                assert(v[k as int].name == path@);
                let c = path_index(v, path@)->Some_0;
                if c != k {
                    assert(v[c].name == v[k as int].name);
                }
            }
            if m[k].size != size {
                return Err(ReleaseError::InconsistentManifestError { path });
            }
            let mut e = m.remove(k);
            assert(e@ == v[k as int]);
            e.set_digest(a, d);
            m.insert(k, e);
            assert(entries_view(m@) =~= v.update(k as int, e@));
            Ok(())
        },
    }
}

} // verus!
