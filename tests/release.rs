use apt_release::envelope::{strip_envelope, ArmorState};
use apt_release::error::{EnvelopeFault, ReleaseError, ReleaseField};
use apt_release::fields::{
    date_from_parsed, parse_a_codename, parse_a_date, parse_a_suite, parse_the_architectures,
    parse_the_components,
};
use apt_release::manifest::{Compression, HashedFile};
use apt_release::release::{parse_release, ReleaseDescriptor};
use apt_release::variants::{artifact_name, preferred_variant, variants};

const EMPTY_SHA256: &str = "e3b0c44298fc1c149afbf4c8996fb92427ae41e4649b934ca495991b7852b855";
const EMPTY_MD5: &str = "d41d8cd98f00b204e9800998ecf8427e";
const EMPTY_SHA1: &str = "da39a3ee5e6b4b0d3255bfef95601890afd80709";

fn lines(text: &str) -> Vec<Vec<u8>> {
    text.split('\n').map(|l| l.as_bytes().to_vec()).collect()
}

fn b(s: &str) -> Vec<u8> {
    s.as_bytes().to_vec()
}

fn words(ws: &[&str]) -> Vec<Vec<u8>> {
    ws.iter().map(|w| b(w)).collect()
}

fn base(extra: &str) -> String {
    format!(
        "Origin: Debian\nLabel: Debian\nSuite: stable\nVersion: 12.4\nCodename: bookworm\n\
         Date: Mon, 01 Jan 2024 00:00:00 UTC\nArchitectures: amd64 arm64\nComponents: main contrib\n{}",
        extra
    )
}

fn parse(text: &str) -> Result<ReleaseDescriptor, ReleaseError> {
    parse_release(&lines(text))
}

fn find<'a>(d: &'a ReleaseDescriptor, path: &str) -> &'a HashedFile {
    let hits: Vec<&HashedFile> = d.manifest.iter().filter(|e| e.name == b(path)).collect();
    assert_eq!(hits.len(), 1);
    hits[0]
}

#[test]
fn concrete_bookworm_scenario() {
    let text = format!(
        "Date: Mon, 01 Jan 2024 00:00:00 UTC\nSuite: stable\nCodename: bookworm\n\
         Architectures: amd64 arm64\nComponents: main contrib\nSHA256:\n {}  0 main/binary-amd64/Packages",
        EMPTY_SHA256
    );
    let d = parse(&text).unwrap();
    assert_eq!(d.date, 1704067200);
    assert_eq!(d.architectures, words(&["amd64", "arm64"]));
    assert_eq!(d.components, words(&["main", "contrib"]));
    assert_eq!(d.manifest.len(), 1);
    let e = find(&d, "main/binary-amd64/Packages");
    assert_eq!(e.size, 0);
    assert_eq!(e.sha256, Some(b(EMPTY_SHA256)));
    assert_eq!(e.md5, None);
    assert_eq!(e.sha1, None);
    assert_eq!(e.sha512, None);
    assert_eq!(e.compression, Compression::NONE);
}

#[test]
fn hand_built_document_round_trips() {
    let text = base("Valid-Until: Mon, 08 Jan 2024 00:00:00 UTC\nNotAutomatic: yes\nSigned-By: AAAA BBBB\n");
    let d = parse(&text).unwrap();
    assert_eq!(d.origin, Some(b("Debian")));
    assert_eq!(d.label, Some(b("Debian")));
    assert_eq!(d.suite, b("stable"));
    assert_eq!(d.codename, b("bookworm"));
    assert_eq!(d.version, Some(b("12.4")));
    assert_eq!(d.architectures, words(&["amd64", "arm64"]));
    assert_eq!(d.components, words(&["main", "contrib"]));
    assert_eq!(d.date, 1704067200);
    assert_eq!(d.valid_until, Some(1704067200 + 7 * 86400));
    assert_eq!(d.not_automatic, Some(true));
    assert_eq!(d.but_automatic_upgrades, None);
    assert_eq!(d.acquire_by_hash, None);
    assert_eq!(d.signed_by, Some(words(&["AAAA", "BBBB"])));
    assert!(d.manifest.is_empty());
}

#[test]
fn missing_codename_is_incomplete() {
    let text = "Origin: Debian\nSuite: stable\nDate: Mon, 01 Jan 2024 00:00:00 UTC\n\
                Architectures: amd64\nComponents: main\nAcquire-By-Hash: yes";
    let e = parse(text).unwrap_err();
    assert_eq!(e, ReleaseError::IncompleteReleaseError { missing: vec![ReleaseField::Codename] });
}

#[test]
fn empty_document_names_every_mandatory_field() {
    let e = parse("").unwrap_err();
    assert_eq!(
        e,
        ReleaseError::IncompleteReleaseError {
            missing: vec![
                ReleaseField::Suite,
                ReleaseField::Codename,
                ReleaseField::Date,
                ReleaseField::Architectures,
                ReleaseField::Components,
            ]
        }
    );
}

#[test]
fn empty_architectures_is_incomplete() {
    let text = "Suite: stable\nCodename: bookworm\nDate: Mon, 01 Jan 2024 00:00:00 UTC\nArchitectures:\nComponents: main";
    let e = parse(text).unwrap_err();
    assert_eq!(e, ReleaseError::IncompleteReleaseError { missing: vec![ReleaseField::Architectures] });
}

#[test]
fn acquire_by_hash_absent_is_unspecified() {
    assert_eq!(parse(&base("")).unwrap().acquire_by_hash, None);
}

#[test]
fn acquire_by_hash_yes_is_true() {
    assert_eq!(parse(&base("Acquire-By-Hash: yes\n")).unwrap().acquire_by_hash, Some(true));
    assert_eq!(parse(&base("Acquire-By-Hash: YES\n")).unwrap().acquire_by_hash, Some(true));
}

#[test]
fn acquire_by_hash_no_is_unspecified() {
    assert_eq!(parse(&base("Acquire-By-Hash: no\n")).unwrap().acquire_by_hash, None);
}

#[test]
fn scalar_field_last_occurrence_wins() {
    let d = parse(&base("Suite: testing\n")).unwrap();
    assert_eq!(d.suite, b("testing"));
}

#[test]
fn unknown_fields_are_ignored() {
    let d = parse(&base("X-Future-Field: anything\nDescription: Debian 12\n")).unwrap();
    assert_eq!(d.codename, b("bookworm"));
}

#[test]
fn continuation_line_folds_into_previous_field() {
    let text = "Suite: stable\nCodename: bookworm\nDate: Mon, 01 Jan 2024 00:00:00 UTC\n\
                Architectures: amd64\n  arm64\nComponents: main";
    let d = parse(text).unwrap();
    assert_eq!(d.architectures, words(&["amd64", "arm64"]));
}

#[test]
fn blank_line_ends_the_document() {
    let d = parse(&base("\nSuite: testing\nnot a field")).unwrap();
    assert_eq!(d.suite, b("stable"));
}

#[test]
fn line_without_colon_is_malformed() {
    let e = parse(&base("just some words\n")).unwrap_err();
    assert_eq!(e, ReleaseError::MalformedFieldError { line: b("just some words") });
}

#[test]
fn leading_continuation_is_malformed() {
    let e = parse(" dangling").unwrap_err();
    assert_eq!(e, ReleaseError::MalformedFieldError { line: b(" dangling") });
}

#[test]
fn unparseable_date_fails() {
    let text = "Suite: stable\nDate: yesterday";
    assert_eq!(parse(text).unwrap_err(), ReleaseError::DateParseError { text: b("yesterday") });
}

#[test]
fn unknown_time_zone_fails() {
    let text = "Suite: stable\nDate: Mon, 01 Jan 2024 00:00:00 CEST";
    assert_eq!(
        parse(text).unwrap_err(),
        ReleaseError::DateParseError { text: b("Mon, 01 Jan 2024 00:00:00 CEST") }
    );
}

#[test]
fn gmt_zone_is_accepted() {
    assert_eq!(parse_a_date(b"Date: Mon, 01 Jan 2024 12:30:05 GMT").unwrap(), 1704112205);
}

#[test]
fn valid_until_before_date_fails() {
    let e = parse(&base("Valid-Until: Mon, 01 Jan 2024 00:00:00 UTC\n")).unwrap_err();
    assert_eq!(e, ReleaseError::DateParseError { text: b("Mon, 01 Jan 2024 00:00:00 UTC") });
}

#[test]
fn date_from_parsed_decides_on_zone() {
    assert_eq!(date_from_parsed(b"Mon, 01 Jan 2024 00:00:00 UTC", Some(5)), Ok(5));
    assert_eq!(date_from_parsed(b"Mon, 01 Jan 2024 00:00:00 PST", Some(5)), Ok(5 + 8 * 3600));
    assert_eq!(
        date_from_parsed(b"Mon, 01 Jan 2024 00:00:00 CEST", Some(5)),
        Err(ReleaseError::DateParseError { text: b("Mon, 01 Jan 2024 00:00:00 CEST") })
    );
    assert_eq!(
        date_from_parsed(b"garbage UTC", None),
        Err(ReleaseError::DateParseError { text: b("garbage UTC") })
    );
}

#[test]
fn sections_merge_into_one_entry_per_path() {
    let extra = format!(
        "MD5Sum:\n {m}  0 main/binary-amd64/Packages\n {m}  20 main/binary-amd64/Packages.gz\n\
         SHA1:\n {s1}  0 main/binary-amd64/Packages\n\
         SHA256:\n {s}  0 main/binary-amd64/Packages\n {s}  20 main/binary-amd64/Packages.gz\n",
        m = EMPTY_MD5,
        s1 = EMPTY_SHA1,
        s = EMPTY_SHA256
    );
    let d = parse(&base(&extra)).unwrap();
    assert_eq!(d.manifest.len(), 2);
    let p = find(&d, "main/binary-amd64/Packages");
    assert_eq!(p.md5, Some(b(EMPTY_MD5)));
    assert_eq!(p.sha1, Some(b(EMPTY_SHA1)));
    assert_eq!(p.sha256, Some(b(EMPTY_SHA256)));
    assert_eq!(p.sha512, None);
    let g = find(&d, "main/binary-amd64/Packages.gz");
    assert_eq!(g.size, 20);
    assert_eq!(g.compression, Compression::GZIP);
    assert_eq!(g.sha1, None);
    for e in &d.manifest {
        assert!(e.md5.is_some() || e.sha1.is_some() || e.sha256.is_some() || e.sha512.is_some());
    }
}

#[test]
fn conflicting_sizes_fail_naming_the_path() {
    let extra = format!(
        "MD5Sum:\n {}  10 main/i18n/Index\nSHA256:\n {}  11 main/i18n/Index\n",
        EMPTY_MD5, EMPTY_SHA256
    );
    let e = parse(&base(&extra)).unwrap_err();
    assert_eq!(e, ReleaseError::InconsistentManifestError { path: b("main/i18n/Index") });
}

#[test]
fn short_digest_is_rejected() {
    let extra = "SHA256:\n abcdef  10 main/i18n/Index\n";
    let e = parse(&base(extra)).unwrap_err();
    assert_eq!(e, ReleaseError::DigestFormatError { digest: b("abcdef") });
}

#[test]
fn non_hex_digest_is_rejected() {
    let bad = "z41d8cd98f00b204e9800998ecf8427e";
    let extra = format!("MD5Sum:\n {}  10 main/i18n/Index\n", bad);
    let e = parse(&base(&extra)).unwrap_err();
    assert_eq!(e, ReleaseError::DigestFormatError { digest: b(bad) });
}

#[test]
fn bad_size_is_malformed() {
    let extra = format!("MD5Sum:\n {}  ten main/i18n/Index\n", EMPTY_MD5);
    let e = parse(&base(&extra)).unwrap_err();
    assert_eq!(e, ReleaseError::MalformedFieldError { line: b(&format!(" {}  ten main/i18n/Index", EMPTY_MD5)) });
}

#[test]
fn oversized_size_is_malformed() {
    let extra = format!("MD5Sum:\n {}  99999999999999999999999 big\n", EMPTY_MD5);
    assert!(matches!(parse(&base(&extra)).unwrap_err(), ReleaseError::MalformedFieldError { .. }));
}

fn manifest_with(paths: &[&str]) -> Vec<HashedFile> {
    let body: String = paths.iter().map(|p| format!(" {}  1 {}\n", EMPTY_SHA256, p)).collect();
    parse(&base(&format!("SHA256:\n{}", body))).unwrap().manifest
}

#[test]
fn xz_is_preferred_over_gz_and_plain() {
    let m = manifest_with(&["pkg", "pkg.gz", "pkg.xz"]);
    let i = preferred_variant(&m, b"pkg").unwrap();
    assert_eq!(m[i].name, b("pkg.xz"));
}

#[test]
fn variants_follow_preference_order() {
    let m = manifest_with(&["a/Packages", "a/Packages.gz", "a/Packages.bz2", "a/Packages.lzma", "a/Packages.xz", "b/Packages"]);
    let v = variants(&m, b"a/Packages");
    let names: Vec<Vec<u8>> = v.iter().map(|&i| m[i].name.clone()).collect();
    assert_eq!(
        names,
        words(&["a/Packages.xz", "a/Packages.lzma", "a/Packages.bz2", "a/Packages.gz", "a/Packages"])
    );
    assert_eq!(preferred_variant(&m, b"c/Packages"), None);
}

#[test]
fn plain_only_variant_is_picked() {
    let m = manifest_with(&["pkg", "other.xz"]);
    assert_eq!(m[preferred_variant(&m, b"pkg").unwrap()].name, b("pkg"));
}

#[test]
fn artifact_name_strips_suffix() {
    assert_eq!(artifact_name(b"main/Packages.lzma"), b("main/Packages"));
    assert_eq!(artifact_name(b"main/Packages.bz2"), b("main/Packages"));
    assert_eq!(artifact_name(b"main/Release"), b("main/Release"));
}

fn signed(body: &str) -> String {
    format!(
        "-----BEGIN PGP SIGNED MESSAGE-----\nHash: SHA512\n\n{}\n-----BEGIN PGP SIGNATURE-----\n\niQIz\n-----END PGP SIGNATURE-----",
        body
    )
}

#[test]
fn clear_signed_release_parses() {
    let text = signed(&base("- -dash line: kept\n"));
    let d = parse(&text).unwrap();
    assert_eq!(d.codename, b("bookworm"));
}

#[test]
fn envelope_is_stripped_and_unescaped() {
    let text = signed("Suite: stable\n- -----BEGIN PGP SIGNATURE-----x\n- plain");
    let c = strip_envelope(&lines(&text)).unwrap();
    assert_eq!(c.state, ArmorState::Done);
    assert_eq!(c.hash, Some(b("SHA512")));
    assert_eq!(c.interior, words(&["Suite: stable", "-----BEGIN PGP SIGNATURE-----x", "plain"]));
    assert_eq!(c.signature.len(), 4);
    assert_eq!(c.signature[0], b("-----BEGIN PGP SIGNATURE-----"));
}

#[test]
fn stripping_twice_is_a_no_op() {
    let text = signed(&base("- -x: y\n"));
    let once = strip_envelope(&lines(&text)).unwrap();
    let twice = strip_envelope(&once.interior).unwrap();
    assert_eq!(twice.interior, once.interior);
    assert!(twice.signature.is_empty());
    assert_eq!(twice.hash, None);
}

#[test]
fn plain_release_passes_through() {
    let ls = lines("Suite: stable\nCodename: x");
    let c = strip_envelope(&ls).unwrap();
    assert_eq!(c.interior, ls);
    assert_eq!(c.state, ArmorState::Plain);
}

#[test]
fn missing_hash_header_fails() {
    let e = strip_envelope(&lines("-----BEGIN PGP SIGNED MESSAGE-----\n\nSuite: x")).unwrap_err();
    assert_eq!(e, ReleaseError::EnvelopeError { fault: EnvelopeFault::MissingHashHeader });
}

#[test]
fn missing_blank_line_fails() {
    let e = strip_envelope(&lines("-----BEGIN PGP SIGNED MESSAGE-----\nHash: SHA256\nSuite: x")).unwrap_err();
    assert_eq!(e, ReleaseError::EnvelopeError { fault: EnvelopeFault::MissingBlankLine });
}

#[test]
fn premature_end_fails() {
    let e = strip_envelope(&lines("-----BEGIN PGP SIGNED MESSAGE-----\nHash: SHA256\n\nSuite: x")).unwrap_err();
    assert_eq!(e, ReleaseError::EnvelopeError { fault: EnvelopeFault::UnexpectedEnd });
}

#[test]
fn signature_without_armor_fails() {
    let e = strip_envelope(&lines("Suite: x\n-----END PGP SIGNATURE-----")).unwrap_err();
    assert_eq!(e, ReleaseError::EnvelopeError { fault: EnvelopeFault::UnexpectedSignature });
}

#[test]
fn single_field_parsers() {
    assert_eq!(parse_a_suite(b"Suite:   stable  ").unwrap(), b("stable"));
    assert_eq!(parse_a_codename(b"Codename: bookworm").unwrap(), b("bookworm"));
    assert_eq!(parse_the_components(b"Components: main contrib non-free").unwrap(), words(&["main", "contrib", "non-free"]));
    assert_eq!(parse_the_architectures(b"Architectures: all  amd64").unwrap(), words(&["all", "amd64"]));
    assert_eq!(
        parse_the_architectures(b"Architectures: amd64 arm64 amd64").unwrap(),
        words(&["amd64", "arm64"])
    );
    assert_eq!(
        parse_the_components(b"Components: main contrib main").unwrap(),
        words(&["main", "contrib"])
    );
    assert_eq!(
        parse_the_architectures(b"Architectures:").unwrap_err(),
        ReleaseError::IncompleteReleaseError { missing: vec![ReleaseField::Architectures] }
    );
    assert_eq!(
        parse_the_components(b"Components:   ").unwrap_err(),
        ReleaseError::IncompleteReleaseError { missing: vec![ReleaseField::Components] }
    );
    assert_eq!(parse_a_suite(b"Suite stable").unwrap_err(), ReleaseError::MalformedFieldError { line: b("Suite stable") });
}

#[test]
fn hashed_file_new_has_no_digest() {
    let f = HashedFile::new(b("main/Contents-amd64.gz"), Compression::GZIP, 42);
    assert_eq!(f.name, b("main/Contents-amd64.gz"));
    assert_eq!(f.size, 42);
    assert_eq!(f.compression, Compression::GZIP);
    assert!(f.md5.is_none() && f.sha1.is_none() && f.sha256.is_none() && f.sha512.is_none());
    assert_eq!(Compression::default(), Compression::NONE);
}

#[test]
fn missing_sha256_is_flagged() {
    let extra = format!("MD5Sum:\n {}  3 main/a\nSHA256:\n {}  4 main/b\n", EMPTY_MD5, EMPTY_SHA256);
    let d = parse(&base(&extra)).unwrap();
    assert!(!find(&d, "main/a").has_sha256());
    assert!(find(&d, "main/b").has_sha256());
}

#[test]
fn invalid_utf8_is_rejected() {
    let mut ls = lines(&base(""));
    ls.insert(2, vec![b'X', b':', b' ', 0xff, 0xfe]);
    let e = parse_release(&ls).unwrap_err();
    assert_eq!(e, ReleaseError::MalformedFieldError { line: vec![b'X', b':', b' ', 0xff, 0xfe] });
    let mut ok = lines(&base(""));
    ok.insert(2, "X-Note: caf\u{e9}".as_bytes().to_vec());
    assert!(parse_release(&ok).is_ok());
}

#[test]
fn list_fields_are_ordered_sets() {
    let d = parse(&base("Architectures: arm64 amd64 arm64 i386 amd64\nSigned-By: BBBB AAAA BBBB\n")).unwrap();
    assert_eq!(d.architectures, words(&["arm64", "amd64", "i386"]));
    assert_eq!(d.signed_by, Some(words(&["BBBB", "AAAA"])));
}

#[test]
fn named_zones_are_normalized_to_utc() {
    assert_eq!(parse_a_date(b"Date: Mon, 01 Jan 2024 00:00:00 EST").unwrap(), 1704067200 + 5 * 3600);
    assert_eq!(parse_a_date(b"Date: Mon, 01 Jan 2024 00:00:00 PDT").unwrap(), 1704067200 + 7 * 3600);
    assert_eq!(parse_a_date(b"Date: Mon, 01 Jan 2024 00:00:00 Z").unwrap(), 1704067200);
}

#[test]
fn form_feed_and_vertical_tab_are_blank() {
    assert_eq!(parse_a_suite(b"Suite:\x0b stable \x0c").unwrap(), b("stable"));
    assert_eq!(parse_the_components(b"Components: main\x0ccontrib").unwrap(), words(&["main", "contrib"]));
}

#[test]
fn word_list_round_trips_through_a_field_line() {
    let xs = ["amd64", "arm64", "i386", "riscv64"];
    let line = format!("Architectures: {}", xs.join(" "));
    assert_eq!(parse_the_architectures(line.as_bytes()).unwrap(), words(&xs));
    let cs = ["main", "contrib", "non-free-firmware"];
    let line = format!("Components: {}", cs.join(" "));
    assert_eq!(parse_the_components(line.as_bytes()).unwrap(), words(&cs));
}
