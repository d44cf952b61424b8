//! Recognising GitHub tag archives, whose tag may be a signed tag object.

use vstd::prelude::*;
use crate::fsck::FsckError;
use crate::text::{str_eq, string_opt_view};

verus! {

/// The error regex::Regex::new gives for a pattern it refuses.
#[verifier::external_type_specification]
#[verifier::external_body]
pub struct ExRegexError(regex::Error);

/// What matching `pattern` against `text` gives: `None` where the pattern
/// does not compile; else the capture groups of the leftmost match, if there
/// is one, group 0 first, with `None` for a group that took no part.
pub uninterp spec fn regex_captures(pattern: Seq<char>, text: Seq<char>) -> Option<
    Option<Seq<Option<Seq<char>>>>,
>;

pub open spec fn groups_view(g: Seq<Option<String>>) -> Seq<Option<Seq<char>>> {
    g.map_values(|o: Option<String>| string_opt_view(o))
}

/// Relies on regex::Regex::new, which compiles `pattern`, and
/// Regex::captures, which gives the capture groups of the leftmost match.
#[verifier::external_body]
fn captures(pattern: &str, text: &str) -> (r: Result<Option<Vec<Option<String>>>, regex::Error>)
    ensures
        match r {
            Err(_) => regex_captures(pattern@, text@) is None,
            Ok(None) => regex_captures(pattern@, text@) == Some(None::<Seq<Option<Seq<char>>>>),
            Ok(Some(groups)) => regex_captures(pattern@, text@) == Some(Some(groups_view(groups@))),
        },
{
    let re = regex::Regex::new(pattern)?;
    Ok(re.captures(text).map(|c| c.iter().map(|m| m.map(|m| m.as_str().to_string())).collect()))
}

/// `https://github.com/<owner>/<name>/archive/refs/tags/<tag>.tar.gz`
pub const REFS_TAGS_ARCHIVE: &'static str = "^https://github.com/([^/]+)/([^/]+)/archive/refs/tags/(.+).tar.gz$";

/// `https://github.com/<owner>/<name>/archive/<tag>/<file>.tar.gz`
pub const NAMED_ARCHIVE: &'static str = "^https://github.com/([^/]+)/([^/]+)/archive/(.+)/.+\\.tar\\.gz$";

/// `https://github.com/<owner>/<name>/archive/<tag>.tar.gz`
pub const PLAIN_ARCHIVE: &'static str = "^https://github.com/([^/]+)/([^/]+)/archive/(.+)\\.tar\\.gz$";

/// The repository and tag that a release archive was made from.
#[derive(Debug, PartialEq, Eq)]
pub struct TagUrl {
    pub owner: String,
    pub name: String,
    pub tag: String,
}

pub struct TagUrlView {
    pub owner: Seq<char>,
    pub name: Seq<char>,
    pub tag: Seq<char>,
}

impl View for TagUrl {
    type V = TagUrlView;

    open spec fn view(&self) -> TagUrlView {
        TagUrlView { owner: self.owner@, name: self.name@, tag: self.tag@ }
    }
}

/// Where the hosting API describes the tag that a release archive names.
pub open spec fn tag_api_url(t: TagUrlView) -> Seq<char> {
    "https://api.github.com/repos/"@ + t.owner + "/"@ + t.name + "/git/ref/tags/"@ + t.tag
}

impl TagUrl {
    pub fn api_url(&self) -> (r: String)
        ensures
            r@ == tag_api_url(self@),
    {
        let mut s = String::new();
        s.append("https://api.github.com/repos/");
        s.append(self.owner.as_str());
        s.append("/");
        s.append(self.name.as_str());
        s.append("/git/ref/tags/");
        s.append(self.tag.as_str());
        s
    }
}

/// Owner, name and tag from capture groups 1, 2 and 3, where all three took
/// part in the match.
pub open spec fn tag_url_of_groups(g: Seq<Option<Seq<char>>>) -> Option<TagUrlView> {
    if g.len() >= 4 && g[1] is Some && g[2] is Some && g[3] is Some {
        Some(TagUrlView { owner: g[1]->Some_0, name: g[2]->Some_0, tag: g[3]->Some_0 })
    } else {
        None
    }
}

/// Tries one archive pattern: a refused pattern is an error, a match names
/// the tag, anything else leaves the decision to `otherwise`.
pub open spec fn try_pattern(
    pattern: Seq<char>,
    url: Seq<char>,
    otherwise: Result<Option<TagUrlView>, ()>,
) -> Result<Option<TagUrlView>, ()> {
    match regex_captures(pattern, url) {
        None => Err(()),
        Some(None) => otherwise,
        Some(Some(g)) => match tag_url_of_groups(g) {
            Some(t) => Ok(Some(t)),
            None => otherwise,
        },
    }
}

/// The tag archive that `url` names, by the first of the three archive
/// patterns that matches it.
pub open spec fn detect_spec(url: Seq<char>) -> Result<Option<TagUrlView>, ()> {
    try_pattern(
        REFS_TAGS_ARCHIVE@,
        url,
        try_pattern(NAMED_ARCHIVE@, url, try_pattern(PLAIN_ARCHIVE@, url, Ok(None))),
    )
}

pub open spec fn opt_tag_view(t: Option<TagUrl>) -> Option<TagUrlView> {
    match t {
        Some(t) => Some(t@),
        None => None,
    }
}

/// Reads owner, name and tag out of a match's capture groups.
pub fn tag_url_from_captures(groups: &Vec<Option<String>>) -> (r: Option<TagUrl>)
    ensures
        opt_tag_view(r) == tag_url_of_groups(groups_view(groups@)),
{
    if groups.len() < 4 {
        return None;
    }
    match (&groups[1], &groups[2], &groups[3]) {
        (Some(owner), Some(name), Some(tag)) => Some(
            TagUrl { owner: owner.clone(), name: name.clone(), tag: tag.clone() },
        ),
        _ => None,
    }
}

fn try_archive_pattern(pattern: &str, url: &str) -> (r: Result<Option<TagUrl>, FsckError>)
    ensures
        match r {
            Err(e) => e == FsckError::InvalidPattern && regex_captures(pattern@, url@) is None,
            Ok(Some(t)) => try_pattern(pattern@, url@, Ok(None)) == Ok::<Option<TagUrlView>, ()>(Some(t@)),
            Ok(None) => try_pattern(pattern@, url@, Ok(None)) == Ok::<Option<TagUrlView>, ()>(None),
        },
{
    match captures(pattern, url) {
        Err(_) => Err(FsckError::InvalidPattern),
        Ok(None) => Ok(None),
        Ok(Some(groups)) => Ok(tag_url_from_captures(&groups)),
    }
}

/// The GitHub repository and tag that a release archive url names, if any.
pub fn detect_signed_tag_from_url(url: &str) -> (r: Result<Option<TagUrl>, FsckError>)
    ensures
        match r {
            Err(e) => e == FsckError::InvalidPattern && detect_spec(url@) is Err,
            Ok(t) => detect_spec(url@) == Ok::<Option<TagUrlView>, ()>(opt_tag_view(t)),
        },
{
    let first = try_archive_pattern(REFS_TAGS_ARCHIVE, url)?;
    if first.is_some() {
        return Ok(first);
    }
    let second = try_archive_pattern(NAMED_ARCHIVE, url)?;
    if second.is_some() {
        return Ok(second);
    }
    try_archive_pattern(PLAIN_ARCHIVE, url)
}

/// A git reference as the hosting API describes it.
#[derive(Debug)]
pub struct Tag {
    pub reference: String,
    pub object: TagObject,
}

/// The object a git reference points to.
#[derive(Debug)]
pub struct TagObject {
    pub sha: String,
    pub kind: String,
    pub url: String,
}

impl Tag {
    /// A reference to a tag object, which can carry a signature, rather than
    /// to a commit.
    pub fn points_to_tag_object(&self) -> (r: bool)
        ensures
            r == (self.object.kind@ == "tag"@),
    {
        str_eq(self.object.kind.as_str(), "tag")
    }
}

} // verus!
