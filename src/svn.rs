//! Subversion sources: a url with an optional `#revision=` fragment.

use vstd::prelude::*;
use crate::hg::{parse_revision_url, RevisionSourceView};
use crate::text::{string_opt_view, str_rsplit_once};

verus! {

#[derive(Debug, PartialEq, Eq)]
pub struct SvnSource {
    pub url: String,
    pub revision: Option<String>,
}

impl View for SvnSource {
    type V = RevisionSourceView;

    open spec fn view(&self) -> RevisionSourceView {
        RevisionSourceView { url: self.url@, revision: string_opt_view(self.revision) }
    }
}

impl Clone for SvnSource {
    fn clone(&self) -> (r: Self)
        ensures
            r == *self,
    {
        SvnSource {
            url: self.url.clone(),
            revision: match &self.revision {
                Some(v) => Some(v.clone()),
                None => None,
            },
        }
    }
}

impl SvnSource {
    /// Reads a url with an optional revision fragment.
    pub fn parse(s: &str) -> (r: SvnSource)
        ensures
            r@ == parse_revision_url(s@),
    {
        match str_rsplit_once(s, "#revision=") {
            Some((remaining, value)) => SvnSource { url: remaining.to_owned(), revision: Some(value.to_owned()) },
            None => SvnSource { url: s.to_owned(), revision: None },
        }
    }
}
impl std::str::FromStr for SvnSource {
    type Err = crate::fsck::FsckError;

    /// Reading a url never fails: without a recognised fragment the source
    /// is simply unpinned.
    fn from_str(s: &str) -> (r: Result<SvnSource, crate::fsck::FsckError>)
        ensures
            r matches Ok(v) && v@ == parse_revision_url(s@),
    {
        Ok(SvnSource::parse(s))
    }
}

} // verus!
