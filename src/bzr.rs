//! Bazaar sources: a url with an optional `#revision=` fragment.

use vstd::prelude::*;
use crate::hg::{parse_revision_url, RevisionSourceView};
use crate::text::{string_opt_view, str_rsplit_once};

verus! {

#[derive(Debug, PartialEq, Eq)]
pub struct BzrSource {
    pub url: String,
    pub revision: Option<String>,
}

impl View for BzrSource {
    type V = RevisionSourceView;

    open spec fn view(&self) -> RevisionSourceView {
        RevisionSourceView { url: self.url@, revision: string_opt_view(self.revision) }
    }
}

impl Clone for BzrSource {
    fn clone(&self) -> (r: Self)
        ensures
            r == *self,
    {
        BzrSource {
            url: self.url.clone(),
            revision: match &self.revision {
                Some(v) => Some(v.clone()),
                None => None,
            },
        }
    }
}

impl BzrSource {
    /// Reads a url with an optional revision fragment.
    pub fn parse(s: &str) -> (r: BzrSource)
        ensures
            r@ == parse_revision_url(s@),
    {
        match str_rsplit_once(s, "#revision=") {
            Some((remaining, value)) => BzrSource { url: remaining.to_owned(), revision: Some(value.to_owned()) },
            None => BzrSource { url: s.to_owned(), revision: None },
        }
    }
}
impl std::str::FromStr for BzrSource {
    type Err = crate::fsck::FsckError;

    /// Reading a url never fails: without a recognised fragment the source
    /// is simply unpinned.
    fn from_str(s: &str) -> (r: Result<BzrSource, crate::fsck::FsckError>)
        ensures
            r matches Ok(v) && v@ == parse_revision_url(s@),
    {
        Ok(BzrSource::parse(s))
    }
}

} // verus!
