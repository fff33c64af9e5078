//! The fixed byte strings of the formats: armor markers, field names,
//! hash-section headers and compression suffixes.

use vstd::prelude::*;

verus! {

/// `-----BEGIN PGP SIGNED MESSAGE-----`
pub open spec fn begin_signed_spec() -> Seq<u8> {
    seq![0x2du8, 0x2du8, 0x2du8, 0x2du8, 0x2du8, 0x42u8, 0x45u8, 0x47u8, 0x49u8, 0x4eu8, 0x20u8, 0x50u8, 0x47u8, 0x50u8, 0x20u8, 0x53u8, 0x49u8, 0x47u8, 0x4eu8, 0x45u8, 0x44u8, 0x20u8, 0x4du8, 0x45u8, 0x53u8, 0x53u8, 0x41u8, 0x47u8, 0x45u8, 0x2du8, 0x2du8, 0x2du8, 0x2du8, 0x2du8]
}

/// `-----BEGIN PGP SIGNED MESSAGE-----`
pub fn begin_signed() -> (r: Vec<u8>)
    ensures
        r@ == begin_signed_spec(),
{
    let r = vec![0x2du8, 0x2du8, 0x2du8, 0x2du8, 0x2du8, 0x42u8, 0x45u8, 0x47u8, 0x49u8, 0x4eu8, 0x20u8, 0x50u8, 0x47u8, 0x50u8, 0x20u8, 0x53u8, 0x49u8, 0x47u8, 0x4eu8, 0x45u8, 0x44u8, 0x20u8, 0x4du8, 0x45u8, 0x53u8, 0x53u8, 0x41u8, 0x47u8, 0x45u8, 0x2du8, 0x2du8, 0x2du8, 0x2du8, 0x2du8];
    assert(r@ =~= begin_signed_spec());
    r
}

/// `-----BEGIN PGP SIGNATURE-----`
pub open spec fn begin_signature_spec() -> Seq<u8> {
    seq![0x2du8, 0x2du8, 0x2du8, 0x2du8, 0x2du8, 0x42u8, 0x45u8, 0x47u8, 0x49u8, 0x4eu8, 0x20u8, 0x50u8, 0x47u8, 0x50u8, 0x20u8, 0x53u8, 0x49u8, 0x47u8, 0x4eu8, 0x41u8, 0x54u8, 0x55u8, 0x52u8, 0x45u8, 0x2du8, 0x2du8, 0x2du8, 0x2du8, 0x2du8]
}

/// `-----BEGIN PGP SIGNATURE-----`
pub fn begin_signature() -> (r: Vec<u8>)
    ensures
        r@ == begin_signature_spec(),
{
    let r = vec![0x2du8, 0x2du8, 0x2du8, 0x2du8, 0x2du8, 0x42u8, 0x45u8, 0x47u8, 0x49u8, 0x4eu8, 0x20u8, 0x50u8, 0x47u8, 0x50u8, 0x20u8, 0x53u8, 0x49u8, 0x47u8, 0x4eu8, 0x41u8, 0x54u8, 0x55u8, 0x52u8, 0x45u8, 0x2du8, 0x2du8, 0x2du8, 0x2du8, 0x2du8];
    assert(r@ =~= begin_signature_spec());
    r
}

/// `-----END PGP SIGNATURE-----`
pub open spec fn end_signature_spec() -> Seq<u8> {
    seq![0x2du8, 0x2du8, 0x2du8, 0x2du8, 0x2du8, 0x45u8, 0x4eu8, 0x44u8, 0x20u8, 0x50u8, 0x47u8, 0x50u8, 0x20u8, 0x53u8, 0x49u8, 0x47u8, 0x4eu8, 0x41u8, 0x54u8, 0x55u8, 0x52u8, 0x45u8, 0x2du8, 0x2du8, 0x2du8, 0x2du8, 0x2du8]
}

/// `-----END PGP SIGNATURE-----`
pub fn end_signature() -> (r: Vec<u8>)
    ensures
        r@ == end_signature_spec(),
{
    let r = vec![0x2du8, 0x2du8, 0x2du8, 0x2du8, 0x2du8, 0x45u8, 0x4eu8, 0x44u8, 0x20u8, 0x50u8, 0x47u8, 0x50u8, 0x20u8, 0x53u8, 0x49u8, 0x47u8, 0x4eu8, 0x41u8, 0x54u8, 0x55u8, 0x52u8, 0x45u8, 0x2du8, 0x2du8, 0x2du8, 0x2du8, 0x2du8];
    assert(r@ =~= end_signature_spec());
    r
}

/// `Hash:`
pub open spec fn hash_header_spec() -> Seq<u8> {
    seq![0x48u8, 0x61u8, 0x73u8, 0x68u8, 0x3au8]
}

/// `Hash:`
pub fn hash_header() -> (r: Vec<u8>)
    ensures
        r@ == hash_header_spec(),
{
    let r = vec![0x48u8, 0x61u8, 0x73u8, 0x68u8, 0x3au8];
    assert(r@ =~= hash_header_spec());
    r
}

/// `- `
pub open spec fn dash_escape_spec() -> Seq<u8> {
    seq![0x2du8, 0x20u8]
}

/// `- `
pub fn dash_escape() -> (r: Vec<u8>)
    ensures
        r@ == dash_escape_spec(),
{
    let r = vec![0x2du8, 0x20u8];
    assert(r@ =~= dash_escape_spec());
    r
}

/// `Origin`
pub open spec fn origin_spec() -> Seq<u8> {
    seq![0x4fu8, 0x72u8, 0x69u8, 0x67u8, 0x69u8, 0x6eu8]
}

/// `Origin`
pub fn origin() -> (r: Vec<u8>)
    ensures
        r@ == origin_spec(),
{
    let r = vec![0x4fu8, 0x72u8, 0x69u8, 0x67u8, 0x69u8, 0x6eu8];
    assert(r@ =~= origin_spec());
    r
}

/// `Label`
pub open spec fn label_spec() -> Seq<u8> {
    seq![0x4cu8, 0x61u8, 0x62u8, 0x65u8, 0x6cu8]
}

/// `Label`
pub fn label() -> (r: Vec<u8>)
    ensures
        r@ == label_spec(),
{
    let r = vec![0x4cu8, 0x61u8, 0x62u8, 0x65u8, 0x6cu8];
    assert(r@ =~= label_spec());
    r
}

/// `Suite`
pub open spec fn suite_spec() -> Seq<u8> {
    seq![0x53u8, 0x75u8, 0x69u8, 0x74u8, 0x65u8]
}

/// `Suite`
pub fn suite() -> (r: Vec<u8>)
    ensures
        r@ == suite_spec(),
{
    let r = vec![0x53u8, 0x75u8, 0x69u8, 0x74u8, 0x65u8];
    assert(r@ =~= suite_spec());
    r
}

/// `Codename`
pub open spec fn codename_spec() -> Seq<u8> {
    seq![0x43u8, 0x6fu8, 0x64u8, 0x65u8, 0x6eu8, 0x61u8, 0x6du8, 0x65u8]
}

/// `Codename`
pub fn codename() -> (r: Vec<u8>)
    ensures
        r@ == codename_spec(),
{
    let r = vec![0x43u8, 0x6fu8, 0x64u8, 0x65u8, 0x6eu8, 0x61u8, 0x6du8, 0x65u8];
    assert(r@ =~= codename_spec());
    r
}

/// `Version`
pub open spec fn version_spec() -> Seq<u8> {
    seq![0x56u8, 0x65u8, 0x72u8, 0x73u8, 0x69u8, 0x6fu8, 0x6eu8]
}

/// `Version`
pub fn version() -> (r: Vec<u8>)
    ensures
        r@ == version_spec(),
{
    let r = vec![0x56u8, 0x65u8, 0x72u8, 0x73u8, 0x69u8, 0x6fu8, 0x6eu8];
    assert(r@ =~= version_spec());
    r
}

/// `Date`
pub open spec fn date_spec() -> Seq<u8> {
    seq![0x44u8, 0x61u8, 0x74u8, 0x65u8]
}

/// `Date`
pub fn date() -> (r: Vec<u8>)
    ensures
        r@ == date_spec(),
{
    let r = vec![0x44u8, 0x61u8, 0x74u8, 0x65u8];
    assert(r@ =~= date_spec());
    r
}

/// `Valid-Until`
pub open spec fn valid_until_spec() -> Seq<u8> {
    seq![0x56u8, 0x61u8, 0x6cu8, 0x69u8, 0x64u8, 0x2du8, 0x55u8, 0x6eu8, 0x74u8, 0x69u8, 0x6cu8]
}

/// `Valid-Until`
pub fn valid_until() -> (r: Vec<u8>)
    ensures
        r@ == valid_until_spec(),
{
    let r = vec![0x56u8, 0x61u8, 0x6cu8, 0x69u8, 0x64u8, 0x2du8, 0x55u8, 0x6eu8, 0x74u8, 0x69u8, 0x6cu8];
    assert(r@ =~= valid_until_spec());
    r
}

/// `Components`
pub open spec fn components_spec() -> Seq<u8> {
    seq![0x43u8, 0x6fu8, 0x6du8, 0x70u8, 0x6fu8, 0x6eu8, 0x65u8, 0x6eu8, 0x74u8, 0x73u8]
}

/// `Components`
pub fn components() -> (r: Vec<u8>)
    ensures
        r@ == components_spec(),
{
    let r = vec![0x43u8, 0x6fu8, 0x6du8, 0x70u8, 0x6fu8, 0x6eu8, 0x65u8, 0x6eu8, 0x74u8, 0x73u8];
    assert(r@ =~= components_spec());
    r
}

/// `Architectures`
pub open spec fn architectures_spec() -> Seq<u8> {
    seq![0x41u8, 0x72u8, 0x63u8, 0x68u8, 0x69u8, 0x74u8, 0x65u8, 0x63u8, 0x74u8, 0x75u8, 0x72u8, 0x65u8, 0x73u8]
}

/// `Architectures`
pub fn architectures() -> (r: Vec<u8>)
    ensures
        r@ == architectures_spec(),
{
    let r = vec![0x41u8, 0x72u8, 0x63u8, 0x68u8, 0x69u8, 0x74u8, 0x65u8, 0x63u8, 0x74u8, 0x75u8, 0x72u8, 0x65u8, 0x73u8];
    assert(r@ =~= architectures_spec());
    r
}

/// `Signed-By`
pub open spec fn signed_by_spec() -> Seq<u8> {
    seq![0x53u8, 0x69u8, 0x67u8, 0x6eu8, 0x65u8, 0x64u8, 0x2du8, 0x42u8, 0x79u8]
}

/// `Signed-By`
pub fn signed_by() -> (r: Vec<u8>)
    ensures
        r@ == signed_by_spec(),
{
    let r = vec![0x53u8, 0x69u8, 0x67u8, 0x6eu8, 0x65u8, 0x64u8, 0x2du8, 0x42u8, 0x79u8];
    assert(r@ =~= signed_by_spec());
    r
}

/// `NotAutomatic`
pub open spec fn not_automatic_spec() -> Seq<u8> {
    seq![0x4eu8, 0x6fu8, 0x74u8, 0x41u8, 0x75u8, 0x74u8, 0x6fu8, 0x6du8, 0x61u8, 0x74u8, 0x69u8, 0x63u8]
}

/// `NotAutomatic`
pub fn not_automatic() -> (r: Vec<u8>)
    ensures
        r@ == not_automatic_spec(),
{
    let r = vec![0x4eu8, 0x6fu8, 0x74u8, 0x41u8, 0x75u8, 0x74u8, 0x6fu8, 0x6du8, 0x61u8, 0x74u8, 0x69u8, 0x63u8];
    assert(r@ =~= not_automatic_spec());
    r
}

/// `ButAutomaticUpgrades`
pub open spec fn but_automatic_upgrades_spec() -> Seq<u8> {
    seq![0x42u8, 0x75u8, 0x74u8, 0x41u8, 0x75u8, 0x74u8, 0x6fu8, 0x6du8, 0x61u8, 0x74u8, 0x69u8, 0x63u8, 0x55u8, 0x70u8, 0x67u8, 0x72u8, 0x61u8, 0x64u8, 0x65u8, 0x73u8]
}

/// `ButAutomaticUpgrades`
pub fn but_automatic_upgrades() -> (r: Vec<u8>)
    ensures
        r@ == but_automatic_upgrades_spec(),
{
    let r = vec![0x42u8, 0x75u8, 0x74u8, 0x41u8, 0x75u8, 0x74u8, 0x6fu8, 0x6du8, 0x61u8, 0x74u8, 0x69u8, 0x63u8, 0x55u8, 0x70u8, 0x67u8, 0x72u8, 0x61u8, 0x64u8, 0x65u8, 0x73u8];
    assert(r@ =~= but_automatic_upgrades_spec());
    r
}

/// `Acquire-By-Hash`
pub open spec fn acquire_by_hash_spec() -> Seq<u8> {
    seq![0x41u8, 0x63u8, 0x71u8, 0x75u8, 0x69u8, 0x72u8, 0x65u8, 0x2du8, 0x42u8, 0x79u8, 0x2du8, 0x48u8, 0x61u8, 0x73u8, 0x68u8]
}

/// `Acquire-By-Hash`
pub fn acquire_by_hash() -> (r: Vec<u8>)
    ensures
        r@ == acquire_by_hash_spec(),
{
    let r = vec![0x41u8, 0x63u8, 0x71u8, 0x75u8, 0x69u8, 0x72u8, 0x65u8, 0x2du8, 0x42u8, 0x79u8, 0x2du8, 0x48u8, 0x61u8, 0x73u8, 0x68u8];
    assert(r@ =~= acquire_by_hash_spec());
    r
}

/// `MD5Sum:`
pub open spec fn md5_sum_spec() -> Seq<u8> {
    seq![0x4du8, 0x44u8, 0x35u8, 0x53u8, 0x75u8, 0x6du8, 0x3au8]
}

/// `MD5Sum:`
pub fn md5_sum() -> (r: Vec<u8>)
    ensures
        r@ == md5_sum_spec(),
{
    let r = vec![0x4du8, 0x44u8, 0x35u8, 0x53u8, 0x75u8, 0x6du8, 0x3au8];
    assert(r@ =~= md5_sum_spec());
    r
}

/// `SHA1:`
pub open spec fn sha1_spec() -> Seq<u8> {
    seq![0x53u8, 0x48u8, 0x41u8, 0x31u8, 0x3au8]
}

/// `SHA1:`
pub fn sha1() -> (r: Vec<u8>)
    ensures
        r@ == sha1_spec(),
{
    let r = vec![0x53u8, 0x48u8, 0x41u8, 0x31u8, 0x3au8];
    assert(r@ =~= sha1_spec());
    r
}

/// `SHA256:`
pub open spec fn sha256_spec() -> Seq<u8> {
    seq![0x53u8, 0x48u8, 0x41u8, 0x32u8, 0x35u8, 0x36u8, 0x3au8]
}

/// `SHA256:`
pub fn sha256() -> (r: Vec<u8>)
    ensures
        r@ == sha256_spec(),
{
    let r = vec![0x53u8, 0x48u8, 0x41u8, 0x32u8, 0x35u8, 0x36u8, 0x3au8];
    assert(r@ =~= sha256_spec());
    r
}

/// `SHA512:`
pub open spec fn sha512_spec() -> Seq<u8> {
    seq![0x53u8, 0x48u8, 0x41u8, 0x35u8, 0x31u8, 0x32u8, 0x3au8]
}

/// `SHA512:`
pub fn sha512() -> (r: Vec<u8>)
    ensures
        r@ == sha512_spec(),
{
    let r = vec![0x53u8, 0x48u8, 0x41u8, 0x35u8, 0x31u8, 0x32u8, 0x3au8];
    assert(r@ =~= sha512_spec());
    r
}

/// `yes`
pub open spec fn yes_spec() -> Seq<u8> {
    seq![0x79u8, 0x65u8, 0x73u8]
}

/// `yes`
pub fn yes() -> (r: Vec<u8>)
    ensures
        r@ == yes_spec(),
{
    let r = vec![0x79u8, 0x65u8, 0x73u8];
    assert(r@ =~= yes_spec());
    r
}

/// `.xz`
pub open spec fn xz_suffix_spec() -> Seq<u8> {
    seq![0x2eu8, 0x78u8, 0x7au8]
}

/// `.xz`
pub fn xz_suffix() -> (r: Vec<u8>)
    ensures
        r@ == xz_suffix_spec(),
{
    let r = vec![0x2eu8, 0x78u8, 0x7au8];
    assert(r@ =~= xz_suffix_spec());
    r
}

/// `.lzma`
pub open spec fn lzma_suffix_spec() -> Seq<u8> {
    seq![0x2eu8, 0x6cu8, 0x7au8, 0x6du8, 0x61u8]
}

/// `.lzma`
pub fn lzma_suffix() -> (r: Vec<u8>)
    ensures
        r@ == lzma_suffix_spec(),
{
    let r = vec![0x2eu8, 0x6cu8, 0x7au8, 0x6du8, 0x61u8];
    assert(r@ =~= lzma_suffix_spec());
    r
}

/// `.bz2`
pub open spec fn bz2_suffix_spec() -> Seq<u8> {
    seq![0x2eu8, 0x62u8, 0x7au8, 0x32u8]
}

/// `.bz2`
pub fn bz2_suffix() -> (r: Vec<u8>)
    ensures
        r@ == bz2_suffix_spec(),
{
    let r = vec![0x2eu8, 0x62u8, 0x7au8, 0x32u8];
    assert(r@ =~= bz2_suffix_spec());
    r
}

/// `.gz`
pub open spec fn gz_suffix_spec() -> Seq<u8> {
    seq![0x2eu8, 0x67u8, 0x7au8]
}

/// `.gz`
pub fn gz_suffix() -> (r: Vec<u8>)
    ensures
        r@ == gz_suffix_spec(),
{
    let r = vec![0x2eu8, 0x67u8, 0x7au8];
    assert(r@ =~= gz_suffix_spec());
    r
}

/// `UTC`
pub open spec fn utc_spec() -> Seq<u8> {
    seq![0x55u8, 0x54u8, 0x43u8]
}

/// `UTC`
pub fn utc() -> (r: Vec<u8>)
    ensures
        r@ == utc_spec(),
{
    let r = vec![0x55u8, 0x54u8, 0x43u8];
    assert(r@ =~= utc_spec());
    r
}

/// `GMT`
pub open spec fn gmt_spec() -> Seq<u8> {
    seq![0x47u8, 0x4du8, 0x54u8]
}

/// `GMT`
pub fn gmt() -> (r: Vec<u8>)
    ensures
        r@ == gmt_spec(),
{
    let r = vec![0x47u8, 0x4du8, 0x54u8];
    assert(r@ =~= gmt_spec());
    r
}

/// `UT`
pub open spec fn ut_spec() -> Seq<u8> {
    seq![0x55u8, 0x54u8]
}

/// `UT`
pub fn ut() -> (r: Vec<u8>)
    ensures
        r@ == ut_spec(),
{
    let r = vec![0x55u8, 0x54u8];
    assert(r@ =~= ut_spec());
    r
}

/// `Z`
pub open spec fn zulu_spec() -> Seq<u8> {
    seq![0x5au8]
}

/// `Z`
pub fn zulu() -> (r: Vec<u8>)
    ensures
        r@ == zulu_spec(),
{
    let r = vec![0x5au8];
    assert(r@ =~= zulu_spec());
    r
}

/// `EST`
pub open spec fn est_spec() -> Seq<u8> {
    seq![0x45u8, 0x53u8, 0x54u8]
}

/// `EST`
pub fn est() -> (r: Vec<u8>)
    ensures
        r@ == est_spec(),
{
    let r = vec![0x45u8, 0x53u8, 0x54u8];
    assert(r@ =~= est_spec());
    r
}

/// `EDT`
pub open spec fn edt_spec() -> Seq<u8> {
    seq![0x45u8, 0x44u8, 0x54u8]
}

/// `EDT`
pub fn edt() -> (r: Vec<u8>)
    ensures
        r@ == edt_spec(),
{
    let r = vec![0x45u8, 0x44u8, 0x54u8];
    assert(r@ =~= edt_spec());
    r
}

/// `CST`
pub open spec fn cst_spec() -> Seq<u8> {
    seq![0x43u8, 0x53u8, 0x54u8]
}

/// `CST`
pub fn cst() -> (r: Vec<u8>)
    ensures
        r@ == cst_spec(),
{
    let r = vec![0x43u8, 0x53u8, 0x54u8];
    assert(r@ =~= cst_spec());
    r
}

/// `CDT`
pub open spec fn cdt_spec() -> Seq<u8> {
    seq![0x43u8, 0x44u8, 0x54u8]
}

/// `CDT`
pub fn cdt() -> (r: Vec<u8>)
    ensures
        r@ == cdt_spec(),
{
    let r = vec![0x43u8, 0x44u8, 0x54u8];
    assert(r@ =~= cdt_spec());
    r
}

/// `MST`
pub open spec fn mst_spec() -> Seq<u8> {
    seq![0x4du8, 0x53u8, 0x54u8]
}

/// `MST`
pub fn mst() -> (r: Vec<u8>)
    ensures
        r@ == mst_spec(),
{
    let r = vec![0x4du8, 0x53u8, 0x54u8];
    assert(r@ =~= mst_spec());
    r
}

/// `MDT`
pub open spec fn mdt_spec() -> Seq<u8> {
    seq![0x4du8, 0x44u8, 0x54u8]
}

/// `MDT`
pub fn mdt() -> (r: Vec<u8>)
    ensures
        r@ == mdt_spec(),
{
    let r = vec![0x4du8, 0x44u8, 0x54u8];
    assert(r@ =~= mdt_spec());
    r
}

/// `PST`
pub open spec fn pst_spec() -> Seq<u8> {
    seq![0x50u8, 0x53u8, 0x54u8]
}

/// `PST`
pub fn pst() -> (r: Vec<u8>)
    ensures
        r@ == pst_spec(),
{
    let r = vec![0x50u8, 0x53u8, 0x54u8];
    assert(r@ =~= pst_spec());
    r
}

/// `PDT`
pub open spec fn pdt_spec() -> Seq<u8> {
    seq![0x50u8, 0x44u8, 0x54u8]
}

/// `PDT`
pub fn pdt() -> (r: Vec<u8>)
    ensures
        r@ == pdt_spec(),
{
    let r = vec![0x50u8, 0x44u8, 0x54u8];
    assert(r@ =~= pdt_spec());
    r
}
} // verus!
