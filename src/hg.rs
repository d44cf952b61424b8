//! Mercurial sources: a url with an optional `#revision=` fragment.

use vstd::prelude::*;
use crate::git::{is_object_hash, lower_hex_hash, take_fragment};
use crate::text::{string_opt_view, str_rsplit_once};

verus! {

/// A url and the revision it is pinned to, if any.
pub struct RevisionSourceView {
    pub url: Seq<char>,
    pub revision: Option<Seq<char>>,
}

/// The url before the last `#revision=` fragment, and the revision after it.
pub open spec fn parse_revision_url(s: Seq<char>) -> RevisionSourceView {
    let (url, revision) = take_fragment(s, "#revision="@);
    RevisionSourceView { url, revision }
}

/// A mercurial source is securely pinned when its revision is a full hash.
pub open spec fn hg_pinned(h: RevisionSourceView) -> bool {
    h.revision matches Some(r) && is_object_hash(r)
}

pub fn is_hg_object_hash(name: &str) -> (r: bool)
    ensures
        r == is_object_hash(name@),
{
    lower_hex_hash(name)
}

#[derive(Debug, PartialEq, Eq)]
pub struct HgSource {
    pub url: String,
    pub revision: Option<String>,
}

impl View for HgSource {
    type V = RevisionSourceView;

    open spec fn view(&self) -> RevisionSourceView {
        RevisionSourceView { url: self.url@, revision: string_opt_view(self.revision) }
    }
}

impl Clone for HgSource {
    fn clone(&self) -> (r: Self)
        ensures
            r == *self,
    {
        HgSource {
            url: self.url.clone(),
            revision: match &self.revision {
                Some(v) => Some(v.clone()),
                None => None,
            },
        }
    }
}

impl HgSource {
    pub fn is_revision_securely_pinned(&self) -> (r: bool)
        ensures
            r == hg_pinned(self@),
    {
        match &self.revision {
            Some(revision) => is_hg_object_hash(revision.as_str()),
            None => false,
        }
    }

    /// Reads a url with an optional revision fragment.
    pub fn parse(s: &str) -> (r: HgSource)
        ensures
            r@ == parse_revision_url(s@),
    {
        match str_rsplit_once(s, "#revision=") {
            Some((remaining, value)) => HgSource { url: remaining.to_owned(), revision: Some(value.to_owned()) },
            None => HgSource { url: s.to_owned(), revision: None },
        }
    }
}
impl std::str::FromStr for HgSource {
    type Err = crate::fsck::FsckError;

    /// Reading a url never fails: without a recognised fragment the source
    /// is simply unpinned.
    fn from_str(s: &str) -> (r: Result<HgSource, crate::fsck::FsckError>)
        ensures
            r matches Ok(v) && v@ == parse_revision_url(s@),
    {
        Ok(HgSource::parse(s))
    }
}

} // verus!
