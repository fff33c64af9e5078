//! Properties that relate several steps of the parse.

use vstd::prelude::*;
use crate::envelope::{
    armor_run, armor_step, escape, initial_armor, is_signature_marker, strip_spec, unescape,
    ArmorModel, ArmorState,
};
use crate::builder::{interpret_run, interpret_step, missing_fields, missing_if, ReleaseModel};
use crate::control::logical_lines;
use crate::error::{EnvelopeFault, ErrorModel, ReleaseField};
use crate::fields::{field_name, field_value};
use crate::keywords::{
    acquire_by_hash_spec, begin_signature_spec, begin_signed_spec, codename_spec, dash_escape_spec,
    end_signature_spec, hash_header_spec,
};
use crate::manifest::{manifest_wf, merge, EntryModel};
use crate::release::{release_fields, release_of};
use crate::sections::{
    entry_line, lemma_scan_run_stops, lemma_scan_wf, manifest_of, scan_run, scan_step, ScanModel,
};
use crate::text::{
    distinct, first_index_of, first_invalid_line, is_blank, trim, trim_end, trim_start, words,
    words_scan,
};

verus! {

/// Lines that carry no envelope: no signature marker, and no start marker
/// in first place.
pub open spec fn plain_text(lines: Seq<Seq<u8>>) -> bool {
    &&& forall|i: int| 0 <= i < lines.len() ==> !is_signature_marker(#[trigger] lines[i])
    &&& lines.len() > 0 ==> lines[0] != begin_signed_spec()
}

/// What stripping gives on text that carries no envelope.
pub open spec fn plain_model(lines: Seq<Seq<u8>>) -> ArmorModel {
    ArmorModel {
        state: if lines.len() == 0 {
            ArmorState::Before
        } else {
            ArmorState::Plain
        },
        hash: None,
        interior: lines,
        signature: seq![],
    }
}

/// Stripping text that carries no envelope gives the text back unchanged,
/// with no signature.
pub proof fn lemma_strip_plain(lines: Seq<Seq<u8>>)
    requires
        plain_text(lines),
    ensures
        strip_spec(lines) == Ok::<ArmorModel, crate::error::EnvelopeFault>(plain_model(lines)),
    decreases lines.len(),
{
    lemma_armor_run_plain(lines);
}

proof fn lemma_armor_run_plain(lines: Seq<Seq<u8>>)
    requires
        plain_text(lines),
    ensures
        armor_run(lines) == Ok::<ArmorModel, crate::error::EnvelopeFault>(plain_model(lines)),
    decreases lines.len(),
{
    if lines.len() > 0 {
        let init = lines.drop_last();
        assert(plain_text(init)) by {
            assert forall|i: int| 0 <= i < init.len() implies !is_signature_marker(#[trigger] init[i]) by {
                assert(init[i] == lines[i]);
            }
            if init.len() > 0 {
                assert(init[0] == lines[0]);
            }
        }
        lemma_armor_run_plain(init);
        assert(!is_signature_marker(lines[lines.len() - 1]));
        if init.len() == 0 {
            assert(lines.last() == lines[0]);
            assert(init =~= seq![]);
            assert(initial_armor().interior.push(lines.last()) =~= lines);
            assert(armor_step(initial_armor(), lines.last()) == Ok::<ArmorModel, crate::error::EnvelopeFault>(plain_model(lines)));
        } else {
            assert(init.push(lines.last()) =~= lines);
            assert(armor_step(plain_model(init), lines.last()) == Ok::<ArmorModel, crate::error::EnvelopeFault>(plain_model(lines)));
        }
    } else {
        assert(lines =~= seq![]);
        assert(initial_armor() == plain_model(lines));
    }
}

/// Stripping is idempotent: where the text that a strip yields carries no
/// marker line of its own, stripping it again gives it back unchanged.
pub proof fn lemma_strip_twice(lines: Seq<Seq<u8>>)
    requires
        strip_spec(lines) is Ok,
        plain_text(strip_spec(lines)->Ok_0.interior),
    ensures
        strip_spec(strip_spec(lines)->Ok_0.interior) matches Ok(m2) && m2.interior == strip_spec(
            lines,
        )->Ok_0.interior && m2.signature.len() == 0 && m2.hash is None,
{
    lemma_strip_plain(strip_spec(lines)->Ok_0.interior);
}

/// A clear-signed message: start marker, `Hash:` line, blank line, the
/// dash-escaped body, then the signature block between its two markers.
pub open spec fn clear_sign(hash: Seq<u8>, body: Seq<Seq<u8>>, sig: Seq<Seq<u8>>) -> Seq<Seq<u8>> {
    seq![begin_signed_spec(), hash_header_spec() + hash, seq![]] + body.map_values(|l: Seq<u8>| escape(l))
        + seq![begin_signature_spec()] + sig + seq![end_signature_spec()]
}

proof fn lemma_run_take(lines: Seq<Seq<u8>>, j: int)
    requires
        0 <= j < lines.len(),
    ensures
        armor_run(lines.take(j + 1)) == (match armor_run(lines.take(j)) {
            Ok(m) => armor_step(m, lines[j]),
            Err(f) => Err(f),
        }),
{
    assert(lines.take(j + 1).drop_last() =~= lines.take(j));
    assert(lines.take(j + 1).last() == lines[j]);
}

proof fn lemma_escape_facts(l: Seq<u8>)
    ensures
        escape(l) != begin_signature_spec(),
        escape(l) != end_signature_spec(),
        unescape(escape(l)) == l,
{
    let b = begin_signature_spec();
    let e = end_signature_spec();
    assert(b[0] == 0x2du8 && b[1] == 0x2du8 && e[0] == 0x2du8 && e[1] == 0x2du8);
    if l.len() > 0 && l[0] == 0x2du8 {
        let x = escape(l);
        assert(x[1] == 0x20u8);
        assert(x.subrange(0, 2) =~= dash_escape_spec());
        assert(x.subrange(2, x.len() as int) =~= l);
    } else {
        if l.len() >= 2 && l.subrange(0, 2) == dash_escape_spec() {
            assert(l.subrange(0, 2)[0] == l[0]);
        }
    }
}

pub open spec fn body_model(hash: Seq<u8>, body: Seq<Seq<u8>>, k: int) -> ArmorModel {
    ArmorModel { state: ArmorState::InBody, hash: Some(trim(hash)), interior: body.take(k), signature: seq![] }
}

pub open spec fn sig_model(hash: Seq<u8>, body: Seq<Seq<u8>>, sig: Seq<Seq<u8>>, j: int) -> ArmorModel {
    ArmorModel {
        state: ArmorState::InSignature,
        hash: Some(trim(hash)),
        interior: body,
        signature: seq![begin_signature_spec()] + sig.take(j),
    }
}

proof fn lemma_body_prefix(hash: Seq<u8>, body: Seq<Seq<u8>>, sig: Seq<Seq<u8>>, k: int)
    requires
        0 <= k <= body.len(),
    ensures
        armor_run(clear_sign(hash, body, sig).take(3 + k)) == Ok::<ArmorModel, EnvelopeFault>(body_model(hash, body, k)),
    decreases k,
{
    let lines = clear_sign(hash, body, sig);
    if k == 0 {
        assert(lines.take(0) =~= seq![]);
        lemma_run_take(lines, 0);
        assert(lines[0] == begin_signed_spec());
        lemma_run_take(lines, 1);
        let hl = lines[1];
        assert(hl == hash_header_spec() + hash);
        assert(hl.subrange(0, 5) =~= hash_header_spec());
        assert(hl.subrange(5, hl.len() as int) =~= hash);
        lemma_run_take(lines, 2);
        assert(lines[2] =~= seq![]);
        assert(trim_start(lines[2]) == lines[2]);
        assert(trim_end(lines[2]) == lines[2]);
        assert(body.take(0) =~= seq![]);
    } else {
        lemma_body_prefix(hash, body, sig, k - 1);
        lemma_run_take(lines, 3 + k - 1);
        assert(lines[3 + k - 1] == escape(body[k - 1]));
        lemma_escape_facts(body[k - 1]);
        assert(body.take(k - 1).push(body[k - 1]) =~= body.take(k));
    }
}

proof fn lemma_sig_prefix(hash: Seq<u8>, body: Seq<Seq<u8>>, sig: Seq<Seq<u8>>, j: int)
    requires
        0 <= j <= sig.len(),
        forall|k: int| 0 <= k < sig.len() ==> #[trigger] sig[k] != end_signature_spec(),
    ensures
        armor_run(clear_sign(hash, body, sig).take(4 + body.len() + j)) == Ok::<ArmorModel, EnvelopeFault>(
            sig_model(hash, body, sig, j),
        ),
    decreases j,
{
    let lines = clear_sign(hash, body, sig);
    let n = body.len() as int;
    if j == 0 {
        lemma_body_prefix(hash, body, sig, n);
        lemma_run_take(lines, 3 + n);
        assert(lines[3 + n] == begin_signature_spec());
        assert(body.take(n) =~= body);
        assert(seq![begin_signature_spec()] + sig.take(0) =~= seq![].push(begin_signature_spec()));
    } else {
        lemma_sig_prefix(hash, body, sig, j - 1);
        lemma_run_take(lines, 4 + n + j - 1);
        assert(lines[4 + n + j - 1] == sig[j - 1]);
        assert((seq![begin_signature_spec()] + sig.take(j - 1)).push(sig[j - 1]) =~= seq![begin_signature_spec()] + sig.take(j));
    }
}

/// Dash-escaping a body and stripping the envelope again gives the body
/// back, with the signature block as it was.
pub proof fn lemma_strip_clear_signed(hash: Seq<u8>, body: Seq<Seq<u8>>, sig: Seq<Seq<u8>>)
    requires
        forall|k: int| 0 <= k < sig.len() ==> #[trigger] sig[k] != end_signature_spec(),
    ensures
        strip_spec(clear_sign(hash, body, sig)) matches Ok(m) && m.state == ArmorState::Done
            && m.interior == body && m.signature == seq![begin_signature_spec()] + sig + seq![
            end_signature_spec(),
        ],
{
    let lines = clear_sign(hash, body, sig);
    let n = body.len() as int;
    let q = sig.len() as int;
    lemma_sig_prefix(hash, body, sig, q);
    lemma_run_take(lines, 4 + n + q);
    assert(lines[4 + n + q] == end_signature_spec());
    assert(lines.take(5 + n + q) =~= lines);
    assert(sig.take(q) =~= sig);
}

/// A parsed release lists every path once, each with at least one digest.
pub proof fn lemma_release_manifest_wf(lines: Seq<Seq<u8>>)
    ensures
        release_of(lines) matches Ok(d) ==> manifest_wf(d.manifest),
{
    if let Ok(env) = strip_spec(lines) {
        lemma_scan_wf(env.interior);
    }
}

/// The path and size of the digest line at `i`, if line `i` is one.
pub open spec fn digest_line_at(lines: Seq<Seq<u8>>, i: int) -> Option<(Seq<u8>, usize)> {
    match scan_run(lines.take(i)) {
        Ok(s) => if 0 <= i < lines.len() && !s.ended && trim(lines[i]).len() != 0 && is_blank(lines[i][0]) && s.section is Some {
            match entry_line(s.section->Some_0, lines[i]) {
                Ok((d, n, p)) => Some((p, n)),
                Err(_) => None,
            }
        } else {
            None
        },
        Err(_) => None,
    }
}

pub open spec fn has_entry(m: Seq<EntryModel>, p: Seq<u8>, n: usize) -> bool {
    exists|x: int| 0 <= x < m.len() && m[x].name == p && m[x].size == n
}

proof fn lemma_step_keeps(s: ScanModel, line: Seq<u8>, p: Seq<u8>, n: usize)
    requires
        has_entry(s.entries, p, n),
        scan_step(s, line) is Ok,
    ensures
        has_entry(scan_step(s, line)->Ok_0.entries, p, n),
{
    let x = choose|x: int| 0 <= x < s.entries.len() && s.entries[x].name == p && s.entries[x].size == n;
    let s2 = scan_step(s, line)->Ok_0;
    if s2.entries != s.entries {
        let a = s.section->Some_0;
        let (d, n2, p2) = entry_line(a, line)->Ok_0;
        let m2 = merge(s.entries, a, d, n2, p2)->Ok_0;
        assert(s2.entries == m2);
        assert(m2[x].name == p && m2[x].size == n);
    }
}

proof fn lemma_entry_recorded(lines: Seq<Seq<u8>>, i: int, k: int)
    requires
        0 <= i < k <= lines.len(),
        digest_line_at(lines, i) matches Some((p, n)),
        scan_run(lines.take(k)) is Ok,
    ensures
        has_entry(scan_run(lines.take(k))->Ok_0.entries, digest_line_at(lines, i)->Some_0.0, digest_line_at(lines, i)->Some_0.1),
    decreases k - i,
{
    let (p, n) = digest_line_at(lines, i)->Some_0;
    assert(lines.take(k).drop_last() =~= lines.take(k - 1));
    assert(lines.take(k).last() == lines[k - 1]);
    if k == i + 1 {
        let s = scan_run(lines.take(i))->Ok_0;
        let a = s.section->Some_0;
        let (d, n2, p2) = entry_line(a, lines[i])->Ok_0;
        let m2 = merge(s.entries, a, d, n2, p2)->Ok_0;
        assert(scan_run(lines.take(k))->Ok_0.entries == m2);
        match crate::manifest::path_index(s.entries, p) {
            None => {
                assert(m2[s.entries.len() as int].name == p);
            },
            Some(y) => {
                assert(m2[y].name == p && m2[y].size == n);
            },
        }
    } else {
        lemma_entry_recorded(lines, i, k - 1);
        lemma_step_keeps(scan_run(lines.take(k - 1))->Ok_0, lines[k - 1], p, n);
    }
}

proof fn lemma_scan_prefix_ok(lines: Seq<Seq<u8>>, k: int)
    requires
        1 <= k <= lines.len(),
        scan_run(lines) is Ok,
    ensures
        scan_run(lines.take(k)) is Ok,
    decreases lines.len() - k,
{
    if k < lines.len() {
        lemma_scan_prefix_ok(lines, k + 1);
        assert(lines.take(k + 1).drop_last() =~= lines.take(k));
    } else {
        assert(lines.take(k) =~= lines);
    }
}

/// Every path that a digest line lists is in the manifest, with the size
/// that the line gives.
pub proof fn lemma_listed_paths_recorded(lines: Seq<Seq<u8>>, i: int)
    requires
        digest_line_at(lines, i) is Some,
        manifest_of(lines) is Ok,
    ensures
        has_entry(manifest_of(lines)->Ok_0, digest_line_at(lines, i)->Some_0.0, digest_line_at(lines, i)->Some_0.1),
{
    let len = lines.len() as int;
    lemma_scan_prefix_ok(lines, len);
    assert(lines.take(len) =~= lines);
    lemma_entry_recorded(lines, i, len);
}

proof fn lemma_step_codename(b: ReleaseModel, line: Seq<u8>)
    requires
        interpret_step(b, line) is Ok,
        field_name(line) != Some(codename_spec()),
        b.codename is None,
    ensures
        interpret_step(b, line)->Ok_0.codename is None,
{
}

proof fn lemma_step_acquire_by_hash(b: ReleaseModel, line: Seq<u8>)
    requires
        interpret_step(b, line) is Ok,
        field_name(line) != Some(acquire_by_hash_spec()),
        b.acquire_by_hash is None,
    ensures
        interpret_step(b, line)->Ok_0.acquire_by_hash is None,
{
}

/// A field that no logical line names stays unset.
proof fn lemma_unnamed_fields(ls: Seq<Seq<u8>>)
    requires
        interpret_run(ls) is Ok,
    ensures
        (forall|i: int| 0 <= i < ls.len() ==> field_name(#[trigger] ls[i]) != Some(codename_spec()))
            ==> interpret_run(ls)->Ok_0.codename is None,
        (forall|i: int| 0 <= i < ls.len() ==> field_name(#[trigger] ls[i]) != Some(acquire_by_hash_spec()))
            ==> interpret_run(ls)->Ok_0.acquire_by_hash is None,
    decreases ls.len(),
{
    if ls.len() > 0 {
        let init = ls.drop_last();
        let last = ls[ls.len() - 1];
        assert(ls.last() == last);
        assert(interpret_run(init) is Ok);
        lemma_unnamed_fields(init);
        let b = interpret_run(init)->Ok_0;
        assert(interpret_run(ls) == interpret_step(b, last));
        if forall|i: int| 0 <= i < ls.len() ==> field_name(#[trigger] ls[i]) != Some(codename_spec()) {
            assert forall|i: int| 0 <= i < init.len() implies field_name(#[trigger] init[i]) != Some(codename_spec()) by {
                assert(init[i] == ls[i]);
            }
            assert(field_name(ls[ls.len() - 1]) != Some(codename_spec()));
            lemma_step_codename(b, last);
        }
        if forall|i: int| 0 <= i < ls.len() ==> field_name(#[trigger] ls[i]) != Some(acquire_by_hash_spec()) {
            assert forall|i: int| 0 <= i < init.len() implies field_name(#[trigger] init[i]) != Some(acquire_by_hash_spec()) by {
                assert(init[i] == ls[i]);
            }
            assert(field_name(ls[ls.len() - 1]) != Some(acquire_by_hash_spec()));
            lemma_step_acquire_by_hash(b, last);
        }
    }
}

/// A document whose other fields are well formed but that has no
/// `Codename:` field fails as incomplete, and the failure names the
/// codename.
pub proof fn lemma_missing_codename(lines: Seq<Seq<u8>>)
    requires
        first_invalid_line(lines) is None,
        strip_spec(lines) is Ok,
        logical_lines(strip_spec(lines)->Ok_0.interior) is Ok,
        interpret_run(logical_lines(strip_spec(lines)->Ok_0.interior)->Ok_0) is Ok,
        forall|i: int| 0 <= i < logical_lines(strip_spec(lines)->Ok_0.interior)->Ok_0.len()
            ==> field_name(#[trigger] logical_lines(strip_spec(lines)->Ok_0.interior)->Ok_0[i]) != Some(codename_spec()),
    ensures
        release_of(lines) matches Err(ErrorModel::IncompleteRelease(missing)) && missing.contains(ReleaseField::Codename),
{
    let ls = logical_lines(strip_spec(lines)->Ok_0.interior)->Ok_0;
    lemma_unnamed_fields(ls);
    let b = interpret_run(ls)->Ok_0;
    let m = missing_fields(b);
    let head = missing_if(b.suite is None, ReleaseField::Suite);
    assert(m[head.len() as int] == ReleaseField::Codename);
}

/// A document with no `Acquire-By-Hash:` field leaves the flag unspecified.
pub proof fn lemma_acquire_by_hash_absent(lines: Seq<Seq<u8>>)
    requires
        strip_spec(lines) is Ok,
        logical_lines(strip_spec(lines)->Ok_0.interior) is Ok,
        forall|i: int| 0 <= i < logical_lines(strip_spec(lines)->Ok_0.interior)->Ok_0.len()
            ==> field_name(#[trigger] logical_lines(strip_spec(lines)->Ok_0.interior)->Ok_0[i]) != Some(acquire_by_hash_spec()),
    ensures
        release_of(lines) matches Ok(d) ==> d.acquire_by_hash is None,
{
    let ls = logical_lines(strip_spec(lines)->Ok_0.interior)->Ok_0;
    if interpret_run(ls) is Ok {
        lemma_unnamed_fields(ls);
    }
}

proof fn lemma_conflict_at(lines: Seq<Seq<u8>>, lo: int, hi: int)
    requires
        0 <= lo < hi,
        digest_line_at(lines, lo) matches Some((p1, n1)),
        digest_line_at(lines, hi) matches Some((p2, n2)),
        digest_line_at(lines, lo)->Some_0.0 == digest_line_at(lines, hi)->Some_0.0,
        digest_line_at(lines, lo)->Some_0.1 != digest_line_at(lines, hi)->Some_0.1,
    ensures
        manifest_of(lines) == Err::<Seq<EntryModel>, ErrorModel>(
            ErrorModel::InconsistentManifest(digest_line_at(lines, lo)->Some_0.0),
        ),
{
    let (p, n1) = digest_line_at(lines, lo)->Some_0;
    let n2 = digest_line_at(lines, hi)->Some_0.1;
    let s = scan_run(lines.take(hi))->Ok_0;
    lemma_entry_recorded(lines, lo, hi);
    lemma_scan_wf(lines.take(hi));
    let x = choose|x: int| 0 <= x < s.entries.len() && s.entries[x].name == p && s.entries[x].size == n1;
    let a = s.section->Some_0;
    let (d, n, p2) = entry_line(a, lines[hi])->Ok_0;
    assert(p2 == p && n == n2);
    let k = crate::manifest::path_index(s.entries, p)->Some_0;
    if k != x {
        if k < x {
            assert(s.entries[k].name != s.entries[x].name);
        } else {
            assert(s.entries[x].name != s.entries[k].name);
        }
    }
    assert(merge(s.entries, a, d, n, p) == Err::<Seq<EntryModel>, ErrorModel>(ErrorModel::InconsistentManifest(p)));
    assert(lines.take(hi + 1).drop_last() =~= lines.take(hi));
    assert(lines.take(hi + 1).last() == lines[hi]);
    lemma_scan_run_stops(lines, hi);
}

/// A path that two digest lines list with different sizes makes the
/// manifest fail with an inconsistency that names the path: neither size is
/// picked.
pub proof fn lemma_conflicting_sizes_fail(lines: Seq<Seq<u8>>, i: int, j: int)
    requires
        digest_line_at(lines, i) matches Some((p1, n1)),
        digest_line_at(lines, j) matches Some((p2, n2)),
        digest_line_at(lines, i)->Some_0.0 == digest_line_at(lines, j)->Some_0.0,
        digest_line_at(lines, i)->Some_0.1 != digest_line_at(lines, j)->Some_0.1,
    ensures
        manifest_of(lines) == Err::<Seq<EntryModel>, ErrorModel>(
            ErrorModel::InconsistentManifest(digest_line_at(lines, i)->Some_0.0),
        ),
{
    if i < j {
        lemma_conflict_at(lines, i, j);
    } else {
        lemma_conflict_at(lines, j, i);
    }
}

/// A release document whose fields are well formed and whose hash sections
/// list one path with two different sizes fails to parse, with an
/// inconsistency that names the path.
pub proof fn lemma_release_conflicting_sizes(lines: Seq<Seq<u8>>, i: int, j: int)
    requires
        first_invalid_line(lines) is None,
        strip_spec(lines) is Ok,
        release_fields(strip_spec(lines)->Ok_0.interior) is Ok,
        digest_line_at(strip_spec(lines)->Ok_0.interior, i) matches Some((p1, n1)),
        digest_line_at(strip_spec(lines)->Ok_0.interior, j) matches Some((p2, n2)),
        digest_line_at(strip_spec(lines)->Ok_0.interior, i)->Some_0.0 == digest_line_at(
            strip_spec(lines)->Ok_0.interior,
            j,
        )->Some_0.0,
        digest_line_at(strip_spec(lines)->Ok_0.interior, i)->Some_0.1 != digest_line_at(
            strip_spec(lines)->Ok_0.interior,
            j,
        )->Some_0.1,
    ensures
        release_of(lines) == Err::<crate::release::DescriptorModel, ErrorModel>(
            ErrorModel::InconsistentManifest(digest_line_at(strip_spec(lines)->Ok_0.interior, i)->Some_0.0),
        ),
{
    lemma_conflicting_sizes_fail(strip_spec(lines)->Ok_0.interior, i, j);
}

/// Words joined by single spaces.
pub open spec fn join_words(xs: Seq<Seq<u8>>) -> Seq<u8>
    decreases xs.len(),
{
    if xs.len() <= 1 {
        if xs.len() == 1 {
            xs[0]
        } else {
            seq![]
        }
    } else {
        join_words(xs.drop_last()) + seq![0x20u8] + xs.last()
    }
}

/// A word: at least one byte, none of them blank.
pub open spec fn is_word(w: Seq<u8>) -> bool {
    w.len() > 0 && forall|k: int| 0 <= k < w.len() ==> !is_blank(#[trigger] w[k])
}

proof fn lemma_scan_append_word(s: Seq<u8>, w: Seq<u8>)
    requires
        forall|k: int| 0 <= k < w.len() ==> !is_blank(#[trigger] w[k]),
    ensures
        words_scan(s + w) == (words_scan(s).0, words_scan(s).1 + w),
    decreases w.len(),
{
    if w.len() == 0 {
        assert(s + w =~= s);
        assert(words_scan(s).1 + w =~= words_scan(s).1);
    } else {
        let init = w.drop_last();
        lemma_scan_append_word(s, init);
        assert((s + w).drop_last() =~= s + init);
        assert((s + w).last() == w.last());
        assert(!is_blank(w[w.len() - 1]));
        assert((words_scan(s).1 + init).push(w.last()) =~= words_scan(s).1 + w);
    }
}

proof fn lemma_scan_join(xs: Seq<Seq<u8>>)
    requires
        xs.len() >= 1,
        forall|i: int| 0 <= i < xs.len() ==> is_word(#[trigger] xs[i]),
    ensures
        words_scan(join_words(xs)) == (xs.drop_last(), xs.last()),
    decreases xs.len(),
{
    if xs.len() == 1 {
        lemma_scan_append_word(seq![], xs[0]);
        assert(Seq::<u8>::empty() + xs[0] =~= xs[0]);
        assert(words_scan(Seq::<u8>::empty()) == (Seq::<Seq<u8>>::empty(), Seq::<u8>::empty()));
        assert(Seq::<u8>::empty() + xs[0] =~= xs[0]);
        assert(xs.drop_last() =~= seq![]);
    } else {
        let init = xs.drop_last();
        assert forall|i: int| 0 <= i < init.len() implies is_word(#[trigger] init[i]) by {
            assert(init[i] == xs[i]);
        }
        lemma_scan_join(init);
        let spaced = join_words(init) + seq![0x20u8];
        assert(spaced.drop_last() =~= join_words(init));
        assert(spaced.last() == 0x20u8);
        assert(is_word(init[init.len() - 1]));
        assert(init.drop_last().push(init.last()) =~= init);
        assert(words_scan(spaced) == (init, Seq::<u8>::empty()));
        assert(is_word(xs[xs.len() - 1]));
        lemma_scan_append_word(spaced, xs.last());
        assert(Seq::<u8>::empty() + xs.last() =~= xs.last());
    }
}

proof fn lemma_distinct_of_distinct(xs: Seq<Seq<u8>>)
    requires
        forall|i: int, j: int| 0 <= i < j < xs.len() ==> xs[i] != xs[j],
    ensures
        distinct(xs) == xs,
    decreases xs.len(),
{
    if xs.len() > 0 {
        let init = xs.drop_last();
        assert forall|i: int, j: int| 0 <= i < j < init.len() implies init[i] != init[j] by {
            assert(init[i] == xs[i] && init[j] == xs[j]);
        }
        lemma_distinct_of_distinct(init);
        assert(!init.contains(xs.last())) by {
            if init.contains(xs.last()) {
                let k = choose|k: int| 0 <= k < init.len() && init[k] == xs.last();
                assert(xs[k] == xs[xs.len() - 1]);
            }
        }
        assert(init.push(xs.last()) =~= xs);
    } else {
        assert(xs =~= seq![]);
    }
}

/// Distinct words joined by single spaces, as the value of a list field,
/// read back as the same words in the same order.
pub proof fn lemma_word_list_round_trip(xs: Seq<Seq<u8>>)
    requires
        xs.len() >= 1,
        forall|i: int| 0 <= i < xs.len() ==> is_word(#[trigger] xs[i]),
        forall|i: int, j: int| 0 <= i < j < xs.len() ==> xs[i] != xs[j],
    ensures
        words(join_words(xs)) == xs,
        distinct(words(join_words(xs))) == xs,
{
    lemma_scan_join(xs);
    assert(is_word(xs[xs.len() - 1]));
    assert(xs.drop_last().push(xs.last()) =~= xs);
    lemma_distinct_of_distinct(xs);
}

proof fn lemma_join_ends(xs: Seq<Seq<u8>>)
    requires
        xs.len() >= 1,
        forall|i: int| 0 <= i < xs.len() ==> is_word(#[trigger] xs[i]),
    ensures
        join_words(xs).len() > 0,
        join_words(xs)[0] == xs[0][0],
        join_words(xs).last() == xs.last().last(),
    decreases xs.len(),
{
    assert(is_word(xs[0]));
    assert(is_word(xs[xs.len() - 1]));
    if xs.len() > 1 {
        let init = xs.drop_last();
        assert forall|i: int| 0 <= i < init.len() implies is_word(#[trigger] init[i]) by {
            assert(init[i] == xs[i]);
        }
        lemma_join_ends(init);
    }
}

/// A field line `<name>: <words>`, for a name without colon and distinct
/// words joined by single spaces, has those words as its value.
pub proof fn lemma_field_line_words(name: Seq<u8>, xs: Seq<Seq<u8>>)
    requires
        forall|k: int| 0 <= k < name.len() ==> #[trigger] name[k] != 0x3au8,
        xs.len() >= 1,
        forall|i: int| 0 <= i < xs.len() ==> is_word(#[trigger] xs[i]),
        forall|i: int, j: int| 0 <= i < j < xs.len() ==> xs[i] != xs[j],
    ensures
        field_value(name + seq![0x3au8, 0x20u8] + join_words(xs)) == Some(join_words(xs)),
        distinct(words(join_words(xs))) == xs,
{
    let j = join_words(xs);
    let line = name + seq![0x3au8, 0x20u8] + j;
    let m = name.len() as int;
    assert(line[m] == 0x3au8);
    let c = choose|i: int| 0 <= i < line.len() && line[i] == 0x3au8 && forall|k: int| 0 <= k < i ==> line[k] != 0x3au8;
    assert(0 <= m < line.len() && line[m] == 0x3au8 && forall|k: int| 0 <= k < m ==> line[k] != 0x3au8) by {
        assert forall|k: int| 0 <= k < m implies line[k] != 0x3au8 by {
            assert(line[k] == name[k]);
        }
    }
    assert(first_index_of(line, 0x3au8) == Some(c));
    if c < m {
        assert(line[c] == name[c]);
    }
    assert(c == m);
    let rest = line.subrange(m + 1, line.len() as int);
    assert(rest =~= seq![0x20u8] + j);
    lemma_join_ends(xs);
    assert(is_word(xs[0]));
    assert(is_word(xs[xs.len() - 1]));
    assert(rest.drop_first() =~= j);
    assert(!is_blank(j[0]));
    assert(trim_start(rest) == trim_start(j));
    assert(trim_start(j) == j);
    assert(!is_blank(j.last()));
    assert(trim_end(j) == j);
    lemma_word_list_round_trip(xs);
}

/// Every line of a dash-escaped, clear-signed body reads, once stripped, as
/// the same field with the same value, and stripping the result again
/// changes nothing where it carries no marker line.
pub proof fn lemma_stripped_fields_kept(hash: Seq<u8>, body: Seq<Seq<u8>>, sig: Seq<Seq<u8>>, k: int)
    requires
        forall|i: int| 0 <= i < sig.len() ==> #[trigger] sig[i] != end_signature_spec(),
        0 <= k < body.len(),
    ensures
        strip_spec(clear_sign(hash, body, sig)) matches Ok(m) && field_name(m.interior[k]) == field_name(body[k])
            && field_value(m.interior[k]) == field_value(body[k]),
        plain_text(body) ==> strip_spec(body) == Ok::<ArmorModel, EnvelopeFault>(plain_model(body)),
{
    lemma_strip_clear_signed(hash, body, sig);
    if plain_text(body) {
        lemma_strip_plain(body);
    }
}

} // verus!
