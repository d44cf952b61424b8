use archlinux_inputs_fsck::fsck::FsckError;
use archlinux_inputs_fsck::github::{detect_signed_tag_from_url, tag_url_from_captures, Tag, TagObject, TagUrl};

#[test]
fn test_github_url_matching() -> Result<(), FsckError> {
    let x = detect_signed_tag_from_url(
        "https://github.com/kpcyrd/acme-redirect/archive/v0.5.3/acme-redirect-0.5.3.tar.gz",
    )?;
    assert_eq!(
        x,
        Some(TagUrl {
            owner: "kpcyrd".to_string(),
            name: "acme-redirect".to_string(),
            tag: "v0.5.3".to_string(),
        })
    );

    let x = detect_signed_tag_from_url(
        "https://github.com/abseil/abseil-cpp/archive/20211102.0/abseil-cpp-20211102.0.tar.gz",
    )?;
    assert_eq!(
        x,
        Some(TagUrl {
            owner: "abseil".to_string(),
            name: "abseil-cpp".to_string(),
            tag: "20211102.0".to_string(),
        })
    );

    Ok(())
}

#[test]
fn refs_tags_archive_is_detected() {
    let x = detect_signed_tag_from_url("https://github.com/owner/repo/archive/refs/tags/v1.2.tar.gz").unwrap();
    assert_eq!(
        x,
        Some(TagUrl { owner: "owner".to_string(), name: "repo".to_string(), tag: "v1.2".to_string() })
    );
}

#[test]
fn plain_archive_is_detected() {
    let x = detect_signed_tag_from_url("https://github.com/owner/repo/archive/v3.0.tar.gz").unwrap();
    assert_eq!(
        x,
        Some(TagUrl { owner: "owner".to_string(), name: "repo".to_string(), tag: "v3.0".to_string() })
    );
}

#[test]
fn other_urls_are_not_tag_archives() {
    assert_eq!(detect_signed_tag_from_url("https://example.com/a.tar.gz").unwrap(), None);
    assert_eq!(detect_signed_tag_from_url("https://gitlab.com/a/b/-/archive/v1/b-v1.tar.gz").unwrap(), None);
}

#[test]
fn captures_give_owner_name_and_tag() {
    let groups = vec![
        Some("whole".to_string()),
        Some("o".to_string()),
        Some("n".to_string()),
        Some("t".to_string()),
    ];
    assert_eq!(
        tag_url_from_captures(&groups),
        Some(TagUrl { owner: "o".to_string(), name: "n".to_string(), tag: "t".to_string() })
    );
}

#[test]
fn captures_missing_a_group_give_nothing() {
    let groups = vec![Some("whole".to_string()), Some("o".to_string()), None, Some("t".to_string())];
    assert_eq!(tag_url_from_captures(&groups), None);
    let short = vec![Some("whole".to_string()), Some("o".to_string())];
    assert_eq!(tag_url_from_captures(&short), None);
}

#[test]
fn tag_object_is_recognised() {
    let tag = Tag {
        reference: "refs/tags/v1".to_string(),
        object: TagObject { sha: "abc".to_string(), kind: "tag".to_string(), url: "u".to_string() },
    };
    assert!(tag.points_to_tag_object());
    let commit = Tag {
        reference: "refs/tags/v1".to_string(),
        object: TagObject { sha: "abc".to_string(), kind: "commit".to_string(), url: "u".to_string() },
    };
    assert!(!commit.points_to_tag_object());
}

#[test]
fn tag_api_url_names_the_reference() {
    let t = TagUrl { owner: "kpcyrd".to_string(), name: "acme-redirect".to_string(), tag: "v0.5.3".to_string() };
    assert_eq!(t.api_url(), "https://api.github.com/repos/kpcyrd/acme-redirect/git/ref/tags/v0.5.3");
}
