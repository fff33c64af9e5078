//! Compression variants of each logical artifact, in order of preference.

use vstd::prelude::*;
use crate::manifest::{compression_from_path, compression_of, Compression, HashedFile};
use crate::text::{bytes_eq, copy_range};

verus! {

/// The place of a compression in the order of preference:
/// XZ, LZMA, BZIP2, GZIP, then uncompressed.
pub open spec fn rank(c: Compression) -> nat {
    match c {
        Compression::XZ => 0,
        Compression::LZMA => 1,
        Compression::BZIP2 => 2,
        Compression::GZIP => 3,
        Compression::NONE => 4,
    }
}

pub open spec fn suffix_len(c: Compression) -> nat {
    match c {
        Compression::XZ => 3,
        Compression::LZMA => 5,
        Compression::BZIP2 => 4,
        Compression::GZIP => 3,
        Compression::NONE => 0,
    }
}

/// The logical artifact that a path names: the path without its
/// compression suffix.
pub open spec fn artifact_of(path: Seq<u8>) -> Seq<u8> {
    path.subrange(0, path.len() - suffix_len(compression_of(path)))
}

pub fn preference(c: Compression) -> (r: usize)
    ensures
        r == rank(c),
{
    match c {
        Compression::XZ => 0,
        Compression::LZMA => 1,
        Compression::BZIP2 => 2,
        Compression::GZIP => 3,
        Compression::NONE => 4,
    }
}

/// The logical artifact that a path names: the path without its
/// compression suffix.
pub fn artifact_name(path: &[u8]) -> (r: Vec<u8>)
    ensures
        r@ == artifact_of(path@),
{
    let n = path.len();
    let k: usize = match compression_from_path(path) {
        Compression::XZ => 3,
        Compression::LZMA => 5,
        Compression::BZIP2 => 4,
        Compression::GZIP => 3,
        Compression::NONE => 0,
    };
    copy_range(path, 0, n - k)
}

/// Whether entry `i` is a variant of `artifact`.
pub open spec fn is_variant(m: Seq<HashedFile>, i: int, artifact: Seq<u8>) -> bool {
    0 <= i < m.len() && artifact_of(m[i]@.name) == artifact
}

/// The sort key of entry `i`: preference first, then place in the manifest.
pub open spec fn key_before(m: Seq<HashedFile>, i: int, j: int) -> bool {
    rank(m[i]@.compression) < rank(m[j]@.compression) || (rank(m[i]@.compression) == rank(m[j]@.compression) && i < j)
}

/// The variants of a logical artifact: the indices of every entry whose path
/// names it, most preferred first.
pub fn variants(m: &Vec<HashedFile>, artifact: &[u8]) -> (r: Vec<usize>)
    ensures
        forall|k: int| 0 <= k < r@.len() ==> is_variant(m@, #[trigger] r@[k] as int, artifact@),
        forall|i: int| is_variant(m@, i, artifact@) ==> exists|k: int| 0 <= k < r@.len() && r@[k] == i,
        forall|j: int, k: int| 0 <= j < k < r@.len() ==> key_before(m@, #[trigger] r@[j] as int, #[trigger] r@[k] as int),
{
    let mut r: Vec<usize> = Vec::new();
    let mut p: usize = 0;
    while p < 5
        invariant
            p <= 5,
            forall|k: int| 0 <= k < r@.len() ==> is_variant(m@, #[trigger] r@[k] as int, artifact@) && rank(m@[r@[k] as int]@.compression) < p,
            forall|i: int| is_variant(m@, i, artifact@) && rank(m@[i]@.compression) < p ==> exists|k: int| 0 <= k < r@.len() && r@[k] == i,
            forall|j: int, k: int| 0 <= j < k < r@.len() ==> key_before(m@, #[trigger] r@[j] as int, #[trigger] r@[k] as int),
        decreases 5 - p,
    {
        let mut i: usize = 0;
        while i < m.len()
            invariant
                p < 5,
                i <= m@.len(),
                forall|k: int| 0 <= k < r@.len() ==> is_variant(m@, #[trigger] r@[k] as int, artifact@) && (rank(m@[r@[k] as int]@.compression) < p || (rank(m@[r@[k] as int]@.compression) == p && r@[k] < i)),
                forall|x: int| is_variant(m@, x, artifact@) && (rank(m@[x]@.compression) < p || (rank(m@[x]@.compression) == p && x < i)) ==> exists|k: int| 0 <= k < r@.len() && r@[k] == x,
                forall|j: int, k: int| 0 <= j < k < r@.len() ==> key_before(m@, #[trigger] r@[j] as int, #[trigger] r@[k] as int),
            decreases m@.len() - i,
        {
            if preference(m[i].compression) == p {
                let a = artifact_name(m[i].name.as_slice());
                if bytes_eq(a.as_slice(), artifact) {
                    let ghost before = r@;
                    r.push(i);
                    proof {
                        assert forall|x: int| is_variant(m@, x, artifact@) && (rank(m@[x]@.compression) < p || (rank(m@[x]@.compression) == p && x < i + 1)) implies exists|k: int| 0 <= k < r@.len() && r@[k] == x by {
                            if x == i {
                                assert(r@[before.len() as int] == x);
                            } else {
                                let k = choose|k: int| 0 <= k < before.len() && before[k] == x;
                                assert(r@[k] == x);
                            }
                        }
                        assert forall|j: int, k: int| 0 <= j < k < r@.len() implies key_before(m@, #[trigger] r@[j] as int, #[trigger] r@[k] as int) by {
                            if k == before.len() {
                                assert(r@[j] == before[j]);
                            } else {
                                assert(r@[j] == before[j] && r@[k] == before[k]);
                            }
                        }
                        assert forall|k: int| 0 <= k < r@.len() implies is_variant(m@, #[trigger] r@[k] as int, artifact@) && (rank(m@[r@[k] as int]@.compression) < p || (rank(m@[r@[k] as int]@.compression) == p && r@[k] < i + 1)) by {
                            if k < before.len() {
                                assert(r@[k] == before[k]);
                            }
                        }
                    }
                }
            }
            i = i + 1;
        }
        p = p + 1;
    }
    r
}

/// The most preferred variant of a logical artifact, if it has any.
pub fn preferred_variant(m: &Vec<HashedFile>, artifact: &[u8]) -> (r: Option<usize>)
    ensures
        r is None <==> !(exists|i: int| is_variant(m@, i, artifact@)),
        r matches Some(i) ==> is_variant(m@, i as int, artifact@) && forall|j: int|
            is_variant(m@, j, artifact@) ==> rank(m@[i as int]@.compression) <= rank(#[trigger] m@[j]@.compression),
{
    let v = variants(m, artifact);
    if v.len() == 0 {
        proof {
            assert forall|i: int| !is_variant(m@, i, artifact@) by {
                if is_variant(m@, i, artifact@) {
                    let k = choose|k: int| 0 <= k < v@.len() && v@[k] == i;
                }
            }
        }
        None
    } else {
        let i = v[0];
        proof {
            assert(is_variant(m@, v@[0] as int, artifact@));
            assert forall|j: int| is_variant(m@, j, artifact@) implies rank(m@[i as int]@.compression) <= rank(#[trigger] m@[j]@.compression) by {
                let k = choose|k: int| 0 <= k < v@.len() && v@[k] == j;
                if k > 0 {
                    assert(key_before(m@, v@[0] as int, v@[k] as int));
                }
            }
        }
        Some(i)
    }
}

} // verus!
