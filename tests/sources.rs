use archlinux_inputs_fsck::bzr::BzrSource;
use archlinux_inputs_fsck::git::{is_git_object_hash, GitSource};
use archlinux_inputs_fsck::hg::{is_hg_object_hash, HgSource};
use archlinux_inputs_fsck::makepkg::Source;
use archlinux_inputs_fsck::svn::SvnSource;
use archlinux_inputs_fsck::text::{str_rsplit_once, str_split_once, str_strip_suffix};

const HASH: &str = "0123456789abcdef0123456789abcdef01234567";

#[test]
fn lowercase_hex_hash_is_accepted() {
    assert!(is_git_object_hash(HASH));
    assert!(is_hg_object_hash(HASH));
    assert!(is_git_object_hash(&"f".repeat(40)));
}

#[test]
fn hash_deviations_are_refused() {
    assert!(!is_git_object_hash(&HASH[..39]));
    assert!(!is_git_object_hash(&format!("{}0", HASH)));
    assert!(!is_git_object_hash(&HASH.to_uppercase()));
    assert!(!is_git_object_hash("0123456789abcdef0123456789abcdef0123456g"));
    assert!(!is_git_object_hash(""));
    assert!(!is_hg_object_hash("v1.0"));
}

#[test]
fn git_url_fragments_are_parsed() {
    let g = GitSource::parse("git+https://x/y.git#commit=abc?signed");
    assert_eq!(g.url, "git+https://x/y.git");
    assert_eq!(g.commit.as_deref(), Some("abc"));
    assert_eq!(g.tag, None);
    assert!(g.signed);

    let g = GitSource::parse("git+https://x/y.git?signed#tag=v1");
    assert_eq!(g.url, "git+https://x/y.git");
    assert_eq!(g.tag.as_deref(), Some("v1"));
    assert_eq!(g.commit, None);
    assert!(g.signed);

    let g = GitSource::parse("git://x/y.git");
    assert_eq!(g.url, "git://x/y.git");
    assert_eq!(g.commit, None);
    assert_eq!(g.tag, None);
    assert!(!g.signed);
}

#[test]
fn git_pin_by_commit_or_tag() {
    assert!(GitSource::parse(&format!("git+https://x#commit={}", HASH)).is_commit_securely_pinned());
    assert!(GitSource::parse(&format!("git+https://x#tag={}", HASH)).is_commit_securely_pinned());
    assert!(!GitSource::parse("git+https://x#tag=v1.0").is_commit_securely_pinned());
    assert!(!GitSource::parse("git+https://x").is_commit_securely_pinned());
}

#[test]
fn revision_fragments_are_parsed() {
    let h = HgSource::parse(&format!("hg+https://x#revision={}", HASH));
    assert_eq!(h.url, "hg+https://x");
    assert!(h.is_revision_securely_pinned());
    assert!(!HgSource::parse("hg+https://x#revision=42").is_revision_securely_pinned());
    assert!(!HgSource::parse("hg+https://x").is_revision_securely_pinned());
    let s = SvnSource::parse("svn+https://x#revision=12");
    assert_eq!(s.url, "svn+https://x");
    assert_eq!(s.revision.as_deref(), Some("12"));
    let b = BzrSource::parse("bzr+https://x");
    assert_eq!(b.url, "bzr+https://x");
    assert_eq!(b.revision, None);
}

#[test]
fn source_lines_are_parsed() {
    let s = Source::parse("foo.tar.gz::https://x/foo-1.tar.gz");
    assert_eq!(s, Source::UrlWithFilename(("https://x/foo-1.tar.gz".to_string(), "foo.tar.gz".to_string())));
    assert_eq!(s.filename(), Some("foo.tar.gz"));
    assert_eq!(s.url(), "https://x/foo-1.tar.gz");
    assert_eq!(s.scheme(), Some("https"));

    let s = Source::parse("local.patch");
    assert_eq!(s, Source::Url("local.patch".to_string()));
    assert_eq!(s.filename(), None);
    assert_eq!(s.scheme(), None);

    assert_eq!(Source::parse("git+ssh://x/y").scheme(), Some("git+ssh"));
}

#[test]
fn splitting_helpers() {
    assert_eq!(str_split_once("a::b::c", "::"), Some(("a", "b::c")));
    assert_eq!(str_rsplit_once("a#x=1#x=2", "#x="), Some(("a#x=1", "2")));
    assert_eq!(str_rsplit_once("abc", "#"), None);
    assert_eq!(str_strip_suffix("a?signed", "?signed"), Some("a"));
    assert_eq!(str_strip_suffix("a", "?signed"), None);
    assert_eq!(str_split_once("ünï::cödé", "::"), Some(("ünï", "cödé")));
}

#[test]
fn sources_parse_through_from_str() {
    let g: GitSource = "git+https://x#tag=v2".parse().unwrap();
    assert_eq!(g.tag.as_deref(), Some("v2"));
    let h: HgSource = "hg+https://x#revision=7".parse().unwrap();
    assert_eq!(h.revision.as_deref(), Some("7"));
    let s: SvnSource = "svn+https://x".parse().unwrap();
    assert_eq!(s.revision, None);
    let b: BzrSource = "bzr+https://x#revision=3".parse().unwrap();
    assert_eq!(b.url, "bzr+https://x");
}

#[test]
fn from_str_reads_pins_and_signed_marker() {
    let g: GitSource = "git+https://x#commit=abc".parse().unwrap();
    assert_eq!(
        g,
        GitSource { url: "git+https://x".to_string(), commit: Some("abc".to_string()), tag: None, signed: false }
    );
    let after: GitSource = "git+https://x#tag=v1.0?signed".parse().unwrap();
    let before: GitSource = "git+https://x?signed#tag=v1.0".parse().unwrap();
    let expected = GitSource { url: "git+https://x".to_string(), commit: None, tag: Some("v1.0".to_string()), signed: true };
    assert_eq!(after, expected);
    assert_eq!(before, expected);
    let h: HgSource = "hg+https://x#revision=1#revision=2".parse().unwrap();
    assert_eq!(h, HgSource { url: "hg+https://x#revision=1".to_string(), revision: Some("2".to_string()) });
    let s: SvnSource = "svn+https://x".parse().unwrap();
    assert_eq!(s, SvnSource { url: "svn+https://x".to_string(), revision: None });
}
