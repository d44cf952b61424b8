//! Git sources: a url with an optional `#commit=` or `#tag=` pin and an
//! optional `?signed` marker.

use vstd::prelude::*;
use crate::text::{chars_of, rsplit_once, str_rsplit_once, str_strip_suffix, strip_suffix};

verus! {

pub open spec fn is_lower_hex_digit(c: char) -> bool {
    ('0' <= c && c <= '9') || ('a' <= c && c <= 'f')
}

/// A full object hash: exactly 40 characters, each a lowercase hex digit.
pub open spec fn is_object_hash(s: Seq<char>) -> bool {
    s.len() == 40 && forall|i: int| 0 <= i < s.len() ==> is_lower_hex_digit(#[trigger] s[i])
}

/// Whether `name` is a full object hash in lowercase hex.
pub fn lower_hex_hash(name: &str) -> (r: bool)
    ensures
        r == is_object_hash(name@),
{
    let cs = chars_of(name);
    if cs.len() != 40 {
        return false;
    }
    let mut i: usize = 0;
    while i < cs.len()
        invariant
            cs@ == name@,
            i <= cs@.len(),
            forall|j: int| 0 <= j < i ==> is_lower_hex_digit(#[trigger] cs@[j]),
        decreases cs@.len() - i,
    {
        let c = cs[i];
        if !(('0' <= c && c <= '9') || ('a' <= c && c <= 'f')) {
            assert(!is_lower_hex_digit(cs@[i as int]));
            return false;
        }
        i = i + 1;
    }
    true
}

pub fn is_git_object_hash(name: &str) -> (r: bool)
    ensures
        r == is_object_hash(name@),
{
    lower_hex_hash(name)
}

#[derive(Debug, PartialEq, Eq)]
pub struct GitSource {
    pub url: String,
    pub commit: Option<String>,
    pub tag: Option<String>,
    pub signed: bool,
}

pub struct GitSourceView {
    pub url: Seq<char>,
    pub commit: Option<Seq<char>>,
    pub tag: Option<Seq<char>>,
    pub signed: bool,
}

impl View for GitSource {
    type V = GitSourceView;

    open spec fn view(&self) -> GitSourceView {
        GitSourceView {
            url: self.url@,
            commit: crate::text::string_opt_view(self.commit),
            tag: crate::text::string_opt_view(self.tag),
            signed: self.signed,
        }
    }
}

/// A git source is securely pinned when its commit or its tag is a full
/// object hash.
pub open spec fn git_pinned(g: GitSourceView) -> bool {
    (g.commit matches Some(c) && is_object_hash(c)) || (g.tag matches Some(t) && is_object_hash(t))
}

/// `s` with one trailing `?signed` removed, and whether it was there.
pub open spec fn strip_signed(s: Seq<char>) -> (Seq<char>, bool) {
    match strip_suffix(s, "?signed"@) {
        Some(rest) => (rest, true),
        None => (s, false),
    }
}

/// `s` split at the last occurrence of the fragment marker `key`.
pub open spec fn take_fragment(s: Seq<char>, key: Seq<char>) -> (Seq<char>, Option<Seq<char>>) {
    match rsplit_once(s, key) {
        Some((rest, value)) => (rest, Some(value)),
        None => (s, None),
    }
}

/// How a git url is read: a trailing `?signed`, then the last `#commit=`
/// fragment, then the last `#tag=` fragment, then a `?signed` that stood
/// before the fragments.
pub open spec fn parse_git(s: Seq<char>) -> GitSourceView {
    let (s1, signed_after) = strip_signed(s);
    let (s2, commit) = take_fragment(s1, "#commit="@);
    let (s3, tag) = take_fragment(s2, "#tag="@);
    let (s4, signed_before) = strip_signed(s3);
    GitSourceView { url: s4, commit, tag, signed: signed_after || signed_before }
}

impl Clone for GitSource {
    fn clone(&self) -> (r: Self)
        ensures
            r == *self,
    {
        GitSource {
            url: self.url.clone(),
            commit: match &self.commit {
                Some(c) => Some(c.clone()),
                None => None,
            },
            tag: match &self.tag {
                Some(t) => Some(t.clone()),
                None => None,
            },
            signed: self.signed,
        }
    }
}

impl GitSource {
    pub fn is_commit_securely_pinned(&self) -> (r: bool)
        ensures
            r == git_pinned(self@),
    {
        let by_commit = match &self.commit {
            Some(commit) => is_git_object_hash(commit.as_str()),
            None => false,
        };
        let by_tag = match &self.tag {
            Some(tag) => is_git_object_hash(tag.as_str()),
            None => false,
        };
        by_commit || by_tag
    }

    /// Reads a git url with its pin fragments.
    pub fn parse(s: &str) -> (r: GitSource)
        ensures
            r@ == parse_git(s@),
    {
        let mut rest: &str = s;
        let mut signed = false;
        let mut commit: Option<String> = None;
        let mut tag: Option<String> = None;

        if let Some(remaining) = str_strip_suffix(rest, "?signed") {
            signed = true;
            rest = remaining;
        }
        if let Some((remaining, value)) = str_rsplit_once(rest, "#commit=") {
            commit = Some(value.to_owned());
            rest = remaining;
        }
        if let Some((remaining, value)) = str_rsplit_once(rest, "#tag=") {
            tag = Some(value.to_owned());
            rest = remaining;
        }
        if let Some(remaining) = str_strip_suffix(rest, "?signed") {
            signed = true;
            rest = remaining;
        }
        GitSource { url: rest.to_owned(), commit, tag, signed }
    }
}

impl std::str::FromStr for GitSource {
    type Err = crate::fsck::FsckError;

    /// Reading a url never fails: without a recognised fragment the source
    /// is simply unpinned.
    fn from_str(s: &str) -> (r: Result<GitSource, crate::fsck::FsckError>)
        ensures
            r matches Ok(v) && v@ == parse_git(s@),
    {
        Ok(GitSource::parse(s))
    }
}

} // verus!
