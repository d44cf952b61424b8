//! Declared source entries of a build recipe, as the shell lists them.

use vstd::prelude::*;
use crate::text::{split_once, str_opt_view, str_split_once};

verus! {

/// The checksum variables a recipe may declare, in the order they are read.
pub const SUPPORTED_ALGS: [&'static str; 7] = [
    "sha256sums",
    "sha512sums",
    "sha224sums",
    "sha384sums",
    "b2sums",
    "md5sums",
    "sha1sums",
];

/// One entry of a recipe's `source` array.
#[derive(Debug, PartialEq, Eq)]
pub enum Source {
    Url(String),
    /// A url together with the local filename it is saved under (`file::url`).
    UrlWithFilename((String, String)),
}

/// The url of a source entry and, where it names one, its local filename.
pub struct SourceView {
    pub url: Seq<char>,
    pub filename: Option<Seq<char>>,
}

impl View for Source {
    type V = SourceView;

    open spec fn view(&self) -> SourceView {
        match self {
            Source::Url(url) => SourceView { url: url@, filename: None },
            Source::UrlWithFilename((url, filename)) => SourceView {
                url: url@,
                filename: Some(filename@),
            },
        }
    }
}

/// The scheme of a url: what stands before the first `://`.
pub open spec fn scheme_of(url: Seq<char>) -> Option<Seq<char>> {
    match split_once(url, "://"@) {
        Some((scheme, _)) => Some(scheme),
        None => None,
    }
}

/// What a line of the shell's listing of `source` declares: `file::url`
/// names a local filename, anything else is a bare url.
pub open spec fn parse_source_spec(line: Seq<char>) -> SourceView {
    match split_once(line, "::"@) {
        Some((file, url)) => SourceView { url, filename: Some(file) },
        None => SourceView { url: line, filename: None },
    }
}

impl Clone for Source {
    fn clone(&self) -> (r: Self)
        ensures
            r == *self,
    {
        match self {
            Source::Url(url) => Source::Url(url.clone()),
            Source::UrlWithFilename((url, filename)) => Source::UrlWithFilename(
                (url.clone(), filename.clone()),
            ),
        }
    }
}

impl Source {
    pub fn filename(&self) -> (r: Option<&str>)
        ensures
            str_opt_view(r) == self@.filename,
    {
        match self {
            Source::Url(_) => None,
            Source::UrlWithFilename((_, filename)) => Some(filename.as_str()),
        }
    }

    pub fn url(&self) -> (r: &str)
        ensures
            r@ == self@.url,
    {
        match self {
            Source::Url(url) => url.as_str(),
            Source::UrlWithFilename((url, _file)) => url.as_str(),
        }
    }

    pub fn scheme(&self) -> (r: Option<&str>)
        ensures
            str_opt_view(r) == scheme_of(self@.url),
    {
        match str_split_once(self.url(), "://") {
            Some((scheme, _)) => Some(scheme),
            None => None,
        }
    }

    /// Reads one line of the shell's listing of `source`.
    pub fn parse(line: &str) -> (r: Source)
        ensures
            r@ == parse_source_spec(line@),
    {
        match str_split_once(line, "::") {
            Some((file, url)) => Source::UrlWithFilename((url.to_owned(), file.to_owned())),
            None => Source::Url(line.to_owned()),
        }
    }
}

pub open spec fn strs_view(v: Seq<&'static str>) -> Seq<Seq<char>> {
    v.map_values(|a: &'static str| a@)
}

/// The flags makepkg is run with to fetch and extract the sources without
/// building: dependencies and the prepare step are skipped unless the
/// prepare step is asked for.
pub fn makepkg_args(prepare: bool) -> (r: Vec<&'static str>)
    ensures
        strs_view(r@) == if prepare {
            seq!["--skippgpcheck"@, "--nobuild"@]
        } else {
            seq!["--nodeps"@, "--noprepare"@, "--skippgpcheck"@, "--nobuild"@]
        },
{
    let r = if prepare {
        vec!["--skippgpcheck", "--nobuild"]
    } else {
        vec!["--nodeps", "--noprepare", "--skippgpcheck", "--nobuild"]
    };
    assert(strs_view(r@) =~= if prepare {
        seq!["--skippgpcheck"@, "--nobuild"@]
    } else {
        seq!["--nodeps"@, "--noprepare"@, "--skippgpcheck"@, "--nobuild"@]
    });
    r
}

} // verus!
