use archlinux_inputs_fsck::fsck::{
    check_sources, classify, tag_lookup_urls, AuthedSource, Checksum, ChecksumList, Finding,
    FsckError, Target,
};
use archlinux_inputs_fsck::makepkg::{Source, SUPPORTED_ALGS};

const HASH: &str = "0123456789abcdef0123456789abcdef01234567";
const SHA256: &str = "e3b0c44298fc1c149afbf4c8996fb92427ae41e4649b934ca495991b7852b855";

fn url(s: &str) -> Source {
    Source::Url(s.to_string())
}

fn list(alg: &str, values: &[&str]) -> ChecksumList {
    ChecksumList { alg: alg.to_string(), values: values.iter().map(|v| v.to_string()).collect() }
}

fn names(findings: &[Finding]) -> Vec<&'static str> {
    findings.iter().map(|f| f.name()).collect()
}

#[test]
fn secure_checksum_algorithms() {
    for alg in ["sha256sums", "sha512sums", "sha224sums", "sha384sums", "b2sums"] {
        assert!(Checksum::new(alg, "x".to_string()).unwrap().is_checksum_securely_pinned());
    }
    for alg in ["md5sums", "sha1sums"] {
        assert!(!Checksum::new(alg, "x".to_string()).unwrap().is_checksum_securely_pinned());
    }
    assert_eq!(SUPPORTED_ALGS.len(), 7);
}

#[test]
fn unknown_checksum_algorithm_is_an_error() {
    assert_eq!(
        Checksum::new("crc32sums", "x".to_string()),
        Err(FsckError::UnknownChecksumAlgorithm("crc32sums".to_string()))
    );
    let sources = vec![url("https://a/a.tar.gz")];
    let r = check_sources(&sources, &vec![list("crc32sums", &["abc"])]);
    assert_eq!(r.err(), Some(FsckError::UnknownChecksumAlgorithm("crc32sums".to_string())));
    // only SKIP values: nothing to read
    let r = check_sources(&sources, &vec![list("crc32sums", &["SKIP"])]).unwrap();
    assert_eq!(names(&r), vec!["url-artifact-insecure-pin"]);
}

#[test]
fn wrong_number_of_checksums_carries_counts() {
    let sources = vec![url("https://a/a.tar.gz"), url("https://a/b.tar.gz"), url("https://a/c.tar.gz")];
    let r = check_sources(&sources, &vec![list("sha256sums", &[SHA256, SHA256])]).unwrap();
    match &r[0] {
        Finding::WrongNumberOfChecksums { sources, alg, sums } => {
            assert_eq!(*sources, 3);
            assert_eq!(alg, "sha256sums");
            assert_eq!(*sums, 2);
        }
        other => panic!("unexpected {:?}", other),
    }
    // the third artifact has no checksum
    assert_eq!(names(&r), vec!["wrong-number-of-checksums", "url-artifact-insecure-pin"]);
    assert_eq!(
        r[0].message(),
        "Number of checksums doesn't match number of sources (sources=3, sha256sums=2)"
    );
}

#[test]
fn more_checksums_than_sources_do_not_panic() {
    let sources = vec![url("https://a/a.tar.gz")];
    let r = check_sources(&sources, &vec![list("sha256sums", &[SHA256, SHA256])]).unwrap();
    assert_eq!(names(&r), vec!["wrong-number-of-checksums"]);
}

#[test]
fn empty_checksum_variable_is_ignored() {
    let sources = vec![url("https://a/a.tar.gz")];
    let r = check_sources(&sources, &vec![list("md5sums", &[]), list("sha512sums", &[SHA256])]).unwrap();
    assert!(r.is_empty());
}

#[test]
fn signature_files_are_exempt() {
    for name in ["https://a/a.tar.gz.sig", "https://a/a.tar.gz.asc", "https://a/a.sign"] {
        let r = check_sources(&vec![url(name)], &vec![]).unwrap();
        assert!(r.is_empty(), "{}", name);
    }
    let named = Source::UrlWithFilename(("https://a/download?id=1".to_string(), "a.sig".to_string()));
    assert!(check_sources(&vec![named], &vec![]).unwrap().is_empty());
}

#[test]
fn weak_checksum_does_not_pin() {
    let sources = vec![url("https://a/a.tar.gz")];
    let r = check_sources(&sources, &vec![list("md5sums", &["d41d8cd98f00b204e9800998ecf8427e"])]).unwrap();
    assert_eq!(names(&r), vec!["url-artifact-insecure-pin"]);
    let r = check_sources(
        &sources,
        &vec![list("sha256sums", &[SHA256]), list("md5sums", &["d41d8cd98f00b204e9800998ecf8427e"])],
    )
    .unwrap();
    assert!(r.is_empty());
}

#[test]
fn pinned_git_source_exempts_submodules() {
    let sources = vec![
        url(&format!("git+https://example.com/main.git#commit={}", HASH)),
        url("git+https://example.com/submodule.git"),
    ];
    let r = check_sources(&sources, &vec![list("sha256sums", &["SKIP", "SKIP"])]).unwrap();
    assert!(r.is_empty());
}

#[test]
fn unpinned_git_sources_are_all_flagged() {
    let sources = vec![url("git+https://example.com/a.git"), url("git+https://example.com/b.git")];
    let r = check_sources(&sources, &vec![list("sha256sums", &["SKIP", "SKIP"])]).unwrap();
    assert_eq!(names(&r), vec!["git-commit-insecure-pin", "git-commit-insecure-pin"]);
}

#[test]
fn scheme_classification() {
    let mut findings = Vec::new();
    let a = classify(url(&format!("git+https://x#commit={}", HASH)), &mut findings);
    assert!(matches!(a, AuthedSource::Git(_)));
    assert!(findings.is_empty());

    let a = classify(url("git://x"), &mut findings);
    assert!(matches!(a, AuthedSource::Git(_)));
    assert_eq!(findings.len(), 1);
    match &findings[0] {
        Finding::InsecureScheme { scheme, .. } => assert_eq!(scheme, "git"),
        other => panic!("unexpected {:?}", other),
    }

    let mut findings = Vec::new();
    let a = classify(url("svn+https://x"), &mut findings);
    assert!(matches!(a, AuthedSource::Svn(_)));
    assert!(findings.is_empty());

    let a = classify(url("svn+ssh://x"), &mut findings);
    assert!(matches!(a, AuthedSource::Svn(_)));
    assert_eq!(names(&findings), vec!["unknown-scheme"]);

    let mut findings = Vec::new();
    assert!(matches!(classify(url("hg+http://x"), &mut findings), AuthedSource::Hg(_)));
    assert!(matches!(classify(url("bzr+https://x"), &mut findings), AuthedSource::Bzr(_)));
    assert!(matches!(classify(url("http://x/a.tar.gz"), &mut findings), AuthedSource::Url(_)));
    assert!(matches!(classify(url("ftp://x/a.tar.gz"), &mut findings), AuthedSource::Url(_)));
    assert!(matches!(classify(url("rsync://x/a.tar.gz"), &mut findings), AuthedSource::Url(_)));
    assert!(matches!(classify(url("local.patch"), &mut findings), AuthedSource::File(_)));
    assert_eq!(names(&findings), vec!["insecure-scheme", "unknown-scheme"]);
    assert_eq!(findings[1].message(), r#"Unknown scheme "rsync": Url("rsync://x/a.tar.gz")"#);
}

#[test]
fn artifact_and_signature_with_sha256() {
    let sources = vec![url("https://a/a.tar.gz"), url("https://a/a.tar.gz.sig")];
    let r = check_sources(&sources, &vec![list("sha256sums", &[SHA256, "SKIP"])]).unwrap();
    assert!(r.is_empty());
}

#[test]
fn git_tag_that_is_not_a_hash() {
    let sources = vec![url("git+https://example.com/repo.git#tag=v1.0")];
    let r = check_sources(&sources, &vec![list("sha256sums", &["SKIP"])]).unwrap();
    assert_eq!(names(&r), vec!["git-commit-insecure-pin"]);
    assert_eq!(
        r[0].message(),
        r#"Git commit is not securely pinned: GitSource { url: "git+https://example.com/repo.git", commit: None, tag: Some("v1.0"), signed: false }"#
    );
}

#[test]
fn svn_and_bzr_are_always_flagged() {
    let sources = vec![url("svn+https://x#revision=1"), url("bzr+https://y"), url(&format!("hg+https://z#revision={}", HASH))];
    let r = check_sources(&sources, &vec![]).unwrap();
    assert_eq!(names(&r), vec!["svn-insecure-pin", "bzr-insecure-pin"]);
    assert_eq!(
        r[0].message(),
        r#"svn is never a cryptographically secure pin: SvnSource { url: "svn+https://x", revision: Some("1") }"#
    );
    assert_eq!(
        r[1].message(),
        r#"bzr is never a cryptographically secure pin: BzrSource { url: "bzr+https://y", revision: None }"#
    );
}

#[test]
fn findings_come_in_scheme_count_pin_order() {
    let sources = vec![url("git://x/a.git"), url("https://a/a.tar.gz")];
    let r = check_sources(&sources, &vec![list("sha1sums", &["SKIP"])]).unwrap();
    assert_eq!(
        names(&r),
        vec!["insecure-scheme", "wrong-number-of-checksums", "git-commit-insecure-pin", "url-artifact-insecure-pin"]
    );
    assert_eq!(r[0].message(), r#"Using insecure git:// scheme: Url("git://x/a.git")"#);
    assert_eq!(
        r[3].message(),
        r#"Url artifact is not securely pinned by checksums: UrlSource { url: "https://a/a.tar.gz", filename: None, checksums: [] }"#
    );
}

#[test]
fn audit_list_applies_filters() {
    let sources = vec![url("git://x/a.git")];
    let r = check_sources(&sources, &vec![]).unwrap();
    let target = Target::ArchBuildSystem("pkg".to_string());
    assert!(Finding::audit_list(&target, &r, &[]));
    assert!(Finding::audit_list(&target, &r, &["insecure-scheme".to_string()]));
    assert!(!Finding::audit_list(&target, &r, &["svn-insecure-pin".to_string()]));
    assert!(!Finding::audit_list(&target, &[], &[]));
    assert_eq!(target.display(), "pkg");
    assert_eq!(Target::BuildPath("/a/b".to_string()).display(), "/a/b");
}

#[test]
fn signature_lookups_skip_signatures_and_vcs() {
    let sources = vec![
        url("https://github.com/o/r/archive/v1.tar.gz"),
        url("https://github.com/o/r/releases/download/v1/r.tar.gz.asc"),
        url("git+https://x/y.git"),
    ];
    assert_eq!(tag_lookup_urls(&sources), vec!["https://github.com/o/r/archive/v1.tar.gz".to_string()]);
}

#[test]
fn messages_show_records_as_debug_does() {
    let named = Source::UrlWithFilename(("https://a/q\"x\".tar.gz".to_string(), "x.tar.gz".to_string()));
    let r = check_sources(
        &vec![named],
        &vec![list("md5sums", &["d41d"]), list("sha1sums", &["da39"])],
    )
    .unwrap();
    assert_eq!(names(&r), vec!["url-artifact-insecure-pin"]);
    assert_eq!(
        r[0].message(),
        r#"Url artifact is not securely pinned by checksums: UrlSource { url: "https://a/q\"x\".tar.gz", filename: Some("x.tar.gz"), checksums: [Md5("d41d"), Sha1("da39")] }"#
    );
    let mut findings = Vec::new();
    classify(Source::UrlWithFilename(("git+git://h/r".to_string(), "r".to_string())), &mut findings);
    assert_eq!(
        findings[0].message(),
        r#"Using insecure git+git:// scheme: UrlWithFilename(("git+git://h/r", "r"))"#
    );
    let r = check_sources(&vec![url(&format!("git+https://h/r?signed#commit={}", "abc"))], &vec![]).unwrap();
    assert_eq!(
        r[0].message(),
        r#"Git commit is not securely pinned: GitSource { url: "git+https://h/r", commit: Some("abc"), tag: None, signed: true }"#
    );
    match &r[0] {
        Finding::GitCommitInsecurePin(g) => assert!(r[0].message().ends_with(&format!("{:?}", g))),
        other => panic!("unexpected {:?}", other),
    }
}

#[test]
fn unpinned_git_sources_flagged_once_each_in_order() {
    let sources = vec![url("git+https://h/a.git"), url("git+https://h/b.git#tag=v2")];
    let r = check_sources(&sources, &vec![]).unwrap();
    assert_eq!(r.len(), 2);
    match (&r[0], &r[1]) {
        (Finding::GitCommitInsecurePin(a), Finding::GitCommitInsecurePin(b)) => {
            assert_eq!(a.url, "git+https://h/a.git");
            assert_eq!(a.commit, None);
            assert_eq!(a.tag, None);
            assert!(!a.signed);
            assert_eq!(b.url, "git+https://h/b.git");
            assert_eq!(b.commit, None);
            assert_eq!(b.tag.as_deref(), Some("v2"));
            assert!(!b.signed);
        }
        other => panic!("unexpected {:?}", other),
    }
}

#[test]
fn one_count_finding_per_mismatched_variable() {
    let sources = vec![url("https://a/a.tar.gz"), url("https://a/b.tar.gz")];
    let r = check_sources(
        &sources,
        &vec![
            list("sha256sums", &[SHA256, SHA256]),
            list("sha512sums", &[SHA256, SHA256, SHA256]),
            list("b2sums", &[]),
            list("md5sums", &["d41d"]),
        ],
    )
    .unwrap();
    let counts: Vec<(usize, String, usize)> = r
        .iter()
        .filter_map(|f| match f {
            Finding::WrongNumberOfChecksums { sources, alg, sums } => Some((*sources, alg.clone(), *sums)),
            _ => None,
        })
        .collect();
    assert_eq!(counts, vec![(2, "sha512sums".to_string(), 3), (2, "md5sums".to_string(), 1)]);
    assert_eq!(r.len(), 2);
}
