//! Reading the hash sections line by line into a manifest.

use vstd::prelude::*;
use crate::error::{ErrorModel, ReleaseError};
use crate::keywords::{md5_sum, md5_sum_spec, sha1, sha1_spec, sha256, sha256_spec, sha512, sha512_spec};
use crate::manifest::{
    entries_view, lemma_merge_wf, manifest_wf, merge, merge_entry, DigestAlgorithm, EntryModel,
    HashedFile,
};
use crate::text::{blank_byte, bytes_eq, copy_range, is_blank, split_words, trim, trim_bytes, words};

verus! {

/// The number of hex digits of a digest.
pub open spec fn digest_len(a: DigestAlgorithm) -> nat {
    match a {
        DigestAlgorithm::Md5 => 32,
        DigestAlgorithm::Sha1 => 40,
        DigestAlgorithm::Sha256 => 64,
        DigestAlgorithm::Sha512 => 128,
    }
}

pub open spec fn is_hex(b: u8) -> bool {
    (0x30u8 <= b && b <= 0x39u8) || (0x61u8 <= b && b <= 0x66u8) || (0x41u8 <= b && b <= 0x46u8)
}

pub open spec fn is_digit(b: u8) -> bool {
    0x30u8 <= b && b <= 0x39u8
}

/// Whether `d` is a well-formed digest of algorithm `a`.
pub open spec fn digest_ok(a: DigestAlgorithm, d: Seq<u8>) -> bool {
    d.len() == digest_len(a) && forall|i: int| 0 <= i < d.len() ==> is_hex(#[trigger] d[i])
}

/// The number that a string of decimal digits spells.
pub open spec fn decimal(s: Seq<u8>) -> int
    decreases s.len(),
{
    if s.len() == 0 {
        0
    } else {
        decimal(s.drop_last()) * 10 + (s.last() - 0x30u8)
    }
}

/// A size field: one or more decimal digits whose value fits in `usize`.
pub open spec fn size_value(s: Seq<u8>) -> Option<usize> {
    if s.len() > 0 && (forall|i: int| 0 <= i < s.len() ==> is_digit(#[trigger] s[i])) && decimal(s) <= usize::MAX {
        Some(decimal(s) as usize)
    } else {
        None
    }
}

pub fn digest_length(a: DigestAlgorithm) -> (r: usize)
    ensures
        r == digest_len(a),
{
    match a {
        DigestAlgorithm::Md5 => 32,
        DigestAlgorithm::Sha1 => 40,
        DigestAlgorithm::Sha256 => 64,
        DigestAlgorithm::Sha512 => 128,
    }
}

/// Whether `d` is a well-formed digest of algorithm `a`: as many hex digits
/// as the algorithm gives.
pub fn check_digest(a: DigestAlgorithm, d: &[u8]) -> (r: bool)
    ensures
        r == digest_ok(a, d@),
{
    if d.len() != digest_length(a) {
        return false;
    }
    let mut i: usize = 0;
    while i < d.len()
        invariant
            i <= d@.len(),
            forall|j: int| 0 <= j < i ==> is_hex(#[trigger] d@[j]),
        decreases d@.len() - i,
    {
        let b = d[i];
        if !((0x30u8 <= b && b <= 0x39u8) || (0x61u8 <= b && b <= 0x66u8) || (0x41u8 <= b && b <= 0x46u8)) {
            return false;
        }
        i = i + 1;
    }
    true
}

proof fn lemma_decimal_grows(s: Seq<u8>, i: int, j: int)
    requires
        0 <= i <= j <= s.len(),
        forall|k: int| 0 <= k < s.len() ==> is_digit(#[trigger] s[k]),
    ensures
        decimal(s.take(i)) <= decimal(s.take(j)),
    decreases j - i,
{
    if i < j {
        lemma_decimal_grows(s, i, j - 1);
        assert(s.take(j).drop_last() =~= s.take(j - 1));
        assert(decimal(s.take(j - 1)) >= 0) by {
            lemma_decimal_nonneg(s.take(j - 1));
        }
    }
}

proof fn lemma_decimal_nonneg(s: Seq<u8>)
    requires
        forall|k: int| 0 <= k < s.len() ==> is_digit(#[trigger] s[k]),
    ensures
        decimal(s) >= 0,
    decreases s.len(),
{
    if s.len() > 0 {
        lemma_decimal_nonneg(s.drop_last());
    }
}

/// Reads a size field.
pub fn parse_size(s: &[u8]) -> (r: Option<usize>)
    ensures
        r == size_value(s@),
{
    let n = s.len();
    if n == 0 {
        return None;
    }
    let mut i: usize = 0;
    while i < n
        invariant
            i <= n == s@.len(),
            forall|k: int| 0 <= k < i ==> is_digit(#[trigger] s@[k]),
        decreases n - i,
    {
        if !(0x30u8 <= s[i] && s[i] <= 0x39u8) {
            return None;
        }
        i = i + 1;
    }
    let mut acc: usize = 0;
    i = 0;
    assert(s@.take(0) =~= seq![]);
    while i < n
        invariant
            i <= n == s@.len(),
            forall|k: int| 0 <= k < n ==> is_digit(#[trigger] s@[k]),
            acc == decimal(s@.take(i as int)),
        decreases n - i,
    {
        assert(s@.take(i + 1).drop_last() =~= s@.take(i as int));
        let d = (s[i] - 0x30u8) as usize;
        match acc.checked_mul(10) {
            Some(t) => match t.checked_add(d) {
                Some(u) => {
                    acc = u;
                },
                None => {
                    proof {
                        lemma_decimal_grows(s@, i + 1, n as int);
                        assert(s@.take(n as int) =~= s@);
                    }
                    return None;
                },
            },
            None => {
                proof {
                    lemma_decimal_grows(s@, i + 1, n as int);
                    assert(s@.take(n as int) =~= s@);
                }
                return None;
            },
        }
        i = i + 1;
    }
    assert(s@.take(n as int) =~= s@);
    Some(acc)
}

/// A digest line `<digest> <size> <path>` of a section of algorithm `a`.
pub open spec fn entry_line(a: DigestAlgorithm, line: Seq<u8>) -> Result<(Seq<u8>, usize, Seq<u8>), ErrorModel> {
    let ws = words(line);
    if ws.len() != 3 {
        Err(ErrorModel::MalformedField(line))
    } else {
        match size_value(ws[1]) {
            None => Err(ErrorModel::MalformedField(line)),
            Some(n) => if !digest_ok(a, ws[0]) {
                Err(ErrorModel::DigestFormat(ws[0]))
            } else {
                Ok((ws[0], n, ws[2]))
            },
        }
    }
}

/// The algorithm whose section a header line opens.
pub open spec fn section_header(line: Seq<u8>) -> Option<DigestAlgorithm> {
    let t = trim(line);
    if t == md5_sum_spec() {
        Some(DigestAlgorithm::Md5)
    } else if t == sha1_spec() {
        Some(DigestAlgorithm::Sha1)
    } else if t == sha256_spec() {
        Some(DigestAlgorithm::Sha256)
    } else if t == sha512_spec() {
        Some(DigestAlgorithm::Sha512)
    } else {
        None
    }
}

/// State of the section reader.
pub struct ScanModel {
    pub section: Option<DigestAlgorithm>,
    pub entries: Seq<EntryModel>,
    pub ended: bool,
}

/// One line of the document read by the section reader. Indented lines
/// under a hash header are digest lines; any other field line ends the
/// section; the first blank line ends the document.
pub open spec fn scan_step(st: ScanModel, line: Seq<u8>) -> Result<ScanModel, ErrorModel> {
    if st.ended {
        Ok(st)
    } else if trim(line).len() == 0 {
        Ok(ScanModel { section: None, ended: true, ..st })
    } else if is_blank(line[0]) {
        match st.section {
            None => Ok(st),
            Some(a) => match entry_line(a, line) {
                Err(e) => Err(e),
                Ok((d, n, p)) => match merge(st.entries, a, d, n, p) {
                    Ok(m) => Ok(ScanModel { entries: m, ..st }),
                    Err(e) => Err(e),
                },
            },
        }
    } else {
        Ok(ScanModel { section: section_header(line), ..st })
    }
}

pub open spec fn scan_run(lines: Seq<Seq<u8>>) -> Result<ScanModel, ErrorModel>
    decreases lines.len(),
{
    if lines.len() == 0 {
        Ok(ScanModel { section: None, entries: seq![], ended: false })
    } else {
        match scan_run(lines.drop_last()) {
            Ok(st) => scan_step(st, lines.last()),
            Err(e) => Err(e),
        }
    }
}

/// The manifest that the hash sections of `lines` describe.
pub open spec fn manifest_of(lines: Seq<Seq<u8>>) -> Result<Seq<EntryModel>, ErrorModel> {
    match scan_run(lines) {
        Ok(st) => Ok(st.entries),
        Err(e) => Err(e),
    }
}

/// Every state that the reader reaches holds well-formed entries.
pub proof fn lemma_scan_wf(lines: Seq<Seq<u8>>)
    ensures
        scan_run(lines) matches Ok(st) ==> manifest_wf(st.entries),
    decreases lines.len(),
{
    if lines.len() > 0 {
        lemma_scan_wf(lines.drop_last());
        if let Ok(st) = scan_run(lines.drop_last()) {
            let line = lines.last();
            if !st.ended && trim(line).len() != 0 && is_blank(line[0]) {
                if let Some(a) = st.section {
                    if let Ok((d, n, p)) = entry_line(a, line) {
                        lemma_merge_wf(st.entries, a, d, n, p);
                    }
                }
            }
        }
    }
}

/// A failure of the section reader stays the result whatever lines follow.
pub proof fn lemma_scan_run_stops(lines: Seq<Seq<u8>>, i: int)
    requires
        0 <= i < lines.len(),
        scan_run(lines.take(i + 1)) is Err,
    ensures
        scan_run(lines) == scan_run(lines.take(i + 1)),
    decreases lines.len() - i,
{
    if i + 1 < lines.len() {
        assert(lines.take(i + 2).drop_last() =~= lines.take(i + 1));
        lemma_scan_run_stops(lines, i + 1);
    } else {
        assert(lines.take(i + 1) =~= lines);
    }
}

/// The algorithm whose section a header line opens.
pub fn header_algorithm(line: &[u8]) -> (r: Option<DigestAlgorithm>)
    ensures
        r == section_header(line@),
{
    let t = trim_bytes(line);
    if bytes_eq(t.as_slice(), md5_sum().as_slice()) {
        Some(DigestAlgorithm::Md5)
    } else if bytes_eq(t.as_slice(), sha1().as_slice()) {
        Some(DigestAlgorithm::Sha1)
    } else if bytes_eq(t.as_slice(), sha256().as_slice()) {
        Some(DigestAlgorithm::Sha256)
    } else if bytes_eq(t.as_slice(), sha512().as_slice()) {
        Some(DigestAlgorithm::Sha512)
    } else {
        None
    }
}

/// Reads one digest line of a section of algorithm `a`.
pub fn parse_entry_line(a: DigestAlgorithm, line: &[u8]) -> (r: Result<(Vec<u8>, usize, Vec<u8>), ReleaseError>)
    ensures
        match entry_line(a, line@) {
            Ok((d, n, p)) => r is Ok && r->Ok_0.0@ == d && r->Ok_0.1 == n && r->Ok_0.2@ == p,
            Err(e) => r is Err && r->Err_0@ == e,
        },
{
    let mut ws = split_words(line);
    let ghost w = ws.deep_view();
    if ws.len() != 3 {
        let l = copy_range(line, 0, line.len());
        assert(l@ =~= line@);
        return Err(ReleaseError::MalformedFieldError { line: l });
    }
    assert(ws[1]@ == w[1]);
    let size = match parse_size(ws[1].as_slice()) {
        Some(n) => n,
        None => {
            let l = copy_range(line, 0, line.len());
            assert(l@ =~= line@);
            return Err(ReleaseError::MalformedFieldError { line: l });
        },
    };
    let path = ws.pop().unwrap();
    let _ = ws.pop();
    let digest = ws.pop().unwrap();
    assert(digest@ == w[0] && path@ == w[2]);
    if !check_digest(a, digest.as_slice()) {
        return Err(ReleaseError::DigestFormatError { digest });
    }
    Ok((digest, size, path))
}

/// Reads the hash sections of a document into a manifest: one entry per
/// path, with every digest that the sections give for it.
pub fn reconcile(lines: &Vec<Vec<u8>>) -> (r: Result<Vec<HashedFile>, ReleaseError>)
    ensures
        match manifest_of(lines.deep_view()) {
            Ok(m) => r is Ok && entries_view(r->Ok_0@) == m && manifest_wf(m),
            Err(e) => r is Err && r->Err_0@ == e,
        },
{
    let mut entries: Vec<HashedFile> = Vec::new();
    let mut section: Option<DigestAlgorithm> = None;
    let mut ended = false;
    let mut i: usize = 0;
    assert(entries_view(entries@) =~= seq![]);
    while i < lines.len()
        invariant
            i <= lines@.len(),
            scan_run(lines.deep_view().take(i as int)) == Ok::<ScanModel, ErrorModel>(
                ScanModel { section, entries: entries_view(entries@), ended },
            ),
        decreases lines@.len() - i,
    {
        proof {
            assert(lines.deep_view().take(i + 1).drop_last() =~= lines.deep_view().take(i as int));
            lemma_scan_wf(lines.deep_view().take(i as int));
        }
        let line = lines[i].as_slice();
        assert(line@ == lines.deep_view()[i as int]);
        if !ended {
            let t = trim_bytes(line);
            if t.len() == 0 {
                section = None;
                ended = true;
            } else if blank_byte(line[0]) {
                match section {
                    None => {},
                    Some(a) => {
                        let step = match parse_entry_line(a, line) {
                            Ok((d, n, p)) => merge_entry(&mut entries, a, d, n, p),
                            Err(e) => Err(e),
                        };
                        match step {
                            Ok(()) => {},
                            Err(e) => {
                                proof {
                                    lemma_scan_run_stops(lines.deep_view(), i as int);
                                }
                                return Err(e);
                            },
                        }
                    },
                }
            } else {
                section = header_algorithm(line);
            }
        }
        i = i + 1;
    }
    assert(lines.deep_view().take(i as int) =~= lines.deep_view());
    proof {
        lemma_scan_wf(lines.deep_view());
    }
    Ok(entries)
}

} // verus!
