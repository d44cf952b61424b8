//! Classification of declared sources, checksum coverage and the pin policy.

use vstd::prelude::*;
use crate::bzr::BzrSource;
use crate::git::{git_pinned, parse_git, GitSource, GitSourceView};
use crate::hg::{hg_pinned, parse_revision_url, HgSource, RevisionSourceView};
use crate::makepkg::{scheme_of, Source, SourceView};
use crate::osv;
use crate::svn::SvnSource;
use crate::text::{ends_with, starts_with, str_ends_with, str_eq, str_starts_with, string_opt_view};

verus! {

/// Errors that end the scan of one target.
#[derive(Debug, PartialEq, Eq)]
pub enum FsckError {
    /// A checksum variable that is not one of the supported algorithms.
    UnknownChecksumAlgorithm(String),
    /// A url pattern that the regex engine refused.
    InvalidPattern,
}

/// One recipe to scan: a package to check out, or a directory holding it.
#[derive(Debug, PartialEq, Eq)]
pub enum Target {
    ArchBuildSystem(String),
    BuildPath(String),
}

pub open spec fn target_name(t: Target) -> Seq<char> {
    match t {
        Target::ArchBuildSystem(pkg) => pkg@,
        Target::BuildPath(path) => path@,
    }
}

impl Target {
    pub fn display(&self) -> (r: &str)
        ensures
            r@ == target_name(*self),
    {
        match self {
            Target::ArchBuildSystem(pkg) => pkg.as_str(),
            Target::BuildPath(path) => path.as_str(),
        }
    }
}

/// The algorithm of a declared checksum.
#[derive(Debug, Clone, Copy, PartialEq, Eq, Structural)]
pub enum ChecksumKind {
    Md5,
    Sha1,
    Sha256,
    Sha512,
    Sha224,
    Sha384,
    B2,
}

/// A declared checksum value, tagged by its algorithm.
#[derive(Debug, PartialEq, Eq)]
pub enum Checksum {
    Md5(String),
    Sha1(String),
    Sha256(String),
    Sha512(String),
    Sha224(String),
    Sha384(String),
    B2(String),
}

pub struct ChecksumView {
    pub kind: ChecksumKind,
    pub value: Seq<char>,
}

impl View for Checksum {
    type V = ChecksumView;

    open spec fn view(&self) -> ChecksumView {
        match self {
            Checksum::Md5(v) => ChecksumView { kind: ChecksumKind::Md5, value: v@ },
            Checksum::Sha1(v) => ChecksumView { kind: ChecksumKind::Sha1, value: v@ },
            Checksum::Sha256(v) => ChecksumView { kind: ChecksumKind::Sha256, value: v@ },
            Checksum::Sha512(v) => ChecksumView { kind: ChecksumKind::Sha512, value: v@ },
            Checksum::Sha224(v) => ChecksumView { kind: ChecksumKind::Sha224, value: v@ },
            Checksum::Sha384(v) => ChecksumView { kind: ChecksumKind::Sha384, value: v@ },
            Checksum::B2(v) => ChecksumView { kind: ChecksumKind::B2, value: v@ },
        }
    }
}

/// The algorithm that a recipe's checksum variable names.
pub open spec fn checksum_kind_of(alg: Seq<char>) -> Option<ChecksumKind> {
    if alg == "md5sums"@ {
        Some(ChecksumKind::Md5)
    } else if alg == "sha1sums"@ {
        Some(ChecksumKind::Sha1)
    } else if alg == "sha256sums"@ {
        Some(ChecksumKind::Sha256)
    } else if alg == "sha512sums"@ {
        Some(ChecksumKind::Sha512)
    } else if alg == "sha224sums"@ {
        Some(ChecksumKind::Sha224)
    } else if alg == "sha384sums"@ {
        Some(ChecksumKind::Sha384)
    } else if alg == "b2sums"@ {
        Some(ChecksumKind::B2)
    } else {
        None
    }
}

/// md5 and sha1 are broken; the sha2 family and blake2 are not.
pub open spec fn kind_is_secure(k: ChecksumKind) -> bool {
    match k {
        ChecksumKind::Md5 | ChecksumKind::Sha1 => false,
        _ => true,
    }
}

impl Checksum {
    pub fn new(alg: &str, value: String) -> (r: Result<Checksum, FsckError>)
        ensures
            match checksum_kind_of(alg@) {
                Some(kind) => match r {
                    Ok(c) => c@ == (ChecksumView { kind, value: value@ }),
                    Err(_) => false,
                },
                None => match r {
                    Ok(_) => false,
                    Err(e) => e matches FsckError::UnknownChecksumAlgorithm(a) && a@ == alg@,
                },
            },
    {
        if str_eq(alg, "md5sums") {
            Ok(Checksum::Md5(value))
        } else if str_eq(alg, "sha1sums") {
            Ok(Checksum::Sha1(value))
        } else if str_eq(alg, "sha256sums") {
            Ok(Checksum::Sha256(value))
        } else if str_eq(alg, "sha512sums") {
            Ok(Checksum::Sha512(value))
        } else if str_eq(alg, "sha224sums") {
            Ok(Checksum::Sha224(value))
        } else if str_eq(alg, "sha384sums") {
            Ok(Checksum::Sha384(value))
        } else if str_eq(alg, "b2sums") {
            Ok(Checksum::B2(value))
        } else {
            Err(FsckError::UnknownChecksumAlgorithm(alg.to_owned()))
        }
    }

    pub fn is_checksum_securely_pinned(&self) -> (r: bool)
        ensures
            r == kind_is_secure(self@.kind),
    {
        match self {
            Checksum::Md5(_) => false,
            Checksum::Sha1(_) => false,
            Checksum::Sha256(_) => true,
            Checksum::Sha512(_) => true,
            Checksum::Sha224(_) => true,
            Checksum::Sha384(_) => true,
            Checksum::B2(_) => true,
        }
    }
}


/// An artifact fetched over a url, with the checksums that pin it.
#[derive(Debug, PartialEq, Eq)]
pub struct UrlSource {
    pub url: String,
    pub filename: Option<String>,
    pub checksums: Vec<Checksum>,
}

pub struct UrlSourceView {
    pub url: Seq<char>,
    pub filename: Option<Seq<char>>,
    pub checksums: Seq<ChecksumView>,
}

impl View for UrlSource {
    type V = UrlSourceView;

    open spec fn view(&self) -> UrlSourceView {
        UrlSourceView {
            url: self.url@,
            filename: string_opt_view(self.filename),
            checksums: self.checksums@.map_values(|c: Checksum| c@),
        }
    }
}

/// The name an artifact is saved under: its filename, else its url.
pub open spec fn artifact_name(u: UrlSourceView) -> Seq<char> {
    match u.filename {
        Some(f) => f,
        None => u.url,
    }
}

/// A detached signature, recognised by its extension.
pub open spec fn is_signature_name(name: Seq<char>) -> bool {
    ends_with(name, ".sig"@) || ends_with(name, ".asc"@) || ends_with(name, ".sign"@)
}

/// At least one attached checksum uses a secure algorithm.
pub open spec fn has_secure_checksum(u: UrlSourceView) -> bool {
    exists|i: int| 0 <= i < u.checksums.len() && kind_is_secure(#[trigger] u.checksums[i].kind)
}

impl UrlSource {
    pub fn is_signature_file(&self) -> (r: bool)
        ensures
            r == is_signature_name(artifact_name(self@)),
    {
        let filename = match &self.filename {
            Some(filename) => filename.as_str(),
            None => self.url.as_str(),
        };
        str_ends_with(filename, ".sig") || str_ends_with(filename, ".asc") || str_ends_with(
            filename,
            ".sign",
        )
    }

    pub fn has_secure_checksum(&self) -> (r: bool)
        ensures
            r == has_secure_checksum(self@),
    {
        let mut i: usize = 0;
        while i < self.checksums.len()
            invariant
                i <= self.checksums@.len(),
                forall|j: int| 0 <= j < i ==> !kind_is_secure(#[trigger] self@.checksums[j].kind),
            decreases self.checksums@.len() - i,
        {
            if self.checksums[i].is_checksum_securely_pinned() {
                assert(kind_is_secure(self@.checksums[i as int].kind));
                return true;
            }
            i = i + 1;
        }
        false
    }
}

/// A declared source, classified by how it is fetched.
#[derive(Debug, PartialEq, Eq)]
pub enum AuthedSource {
    File(String),
    Url(UrlSource),
    Git(GitSource),
    Svn(SvnSource),
    Hg(HgSource),
    Bzr(BzrSource),
}

pub enum AuthedSourceView {
    File(Seq<char>),
    Url(UrlSourceView),
    Git(GitSourceView),
    Svn(RevisionSourceView),
    Hg(RevisionSourceView),
    Bzr(RevisionSourceView),
}

impl View for AuthedSource {
    type V = AuthedSourceView;

    open spec fn view(&self) -> AuthedSourceView {
        match self {
            AuthedSource::File(name) => AuthedSourceView::File(name@),
            AuthedSource::Url(u) => AuthedSourceView::Url(u@),
            AuthedSource::Git(g) => AuthedSourceView::Git(g@),
            AuthedSource::Svn(s) => AuthedSourceView::Svn(s@),
            AuthedSource::Hg(h) => AuthedSourceView::Hg(h@),
            AuthedSource::Bzr(b) => AuthedSourceView::Bzr(b@),
        }
    }
}

/// A source fetched over a url, with no checksum attached yet.
pub open spec fn url_artifact(s: SourceView) -> UrlSourceView {
    UrlSourceView { url: s.url, filename: s.filename, checksums: Seq::empty() }
}

impl AuthedSource {
    pub fn url(s: Source) -> (r: AuthedSource)
        ensures
            r@ == AuthedSourceView::Url(url_artifact(s@)),
    {
        let url = s.url().to_owned();
        let filename = match s.filename() {
            Some(f) => Some(f.to_owned()),
            None => None,
        };
        let r = AuthedSource::Url(UrlSource { url, filename, checksums: Vec::new() });
        assert(r@->Url_0.checksums =~= Seq::<ChecksumView>::empty());
        r
    }
}


/// An auditable problem found in a recipe.
#[derive(Debug)]
#[allow(inconsistent_fields)]
pub enum Finding {
    InsecureScheme { scheme: String, source: Source },
    UnknownScheme((String, Source)),
    WrongNumberOfChecksums { sources: usize, alg: String, sums: usize },
    GitCommitInsecurePin(GitSource),
    SvnInsecurePin(SvnSource),
    HgRevisionInsecurePin(HgSource),
    BzrInsecurePin(BzrSource),
    UrlArtifactInsecurePin(UrlSource),
    SecurityAdvisory { source: String, packages: osv::Packages },
}

#[allow(inconsistent_fields)]
pub enum FindingView {
    InsecureScheme { scheme: Seq<char>, source: SourceView },
    UnknownScheme { scheme: Seq<char>, source: SourceView },
    WrongNumberOfChecksums { sources: nat, alg: Seq<char>, sums: nat },
    GitCommitInsecurePin(GitSourceView),
    SvnInsecurePin(RevisionSourceView),
    HgRevisionInsecurePin(RevisionSourceView),
    BzrInsecurePin(RevisionSourceView),
    UrlArtifactInsecurePin(UrlSourceView),
    SecurityAdvisory { source: Seq<char>, packages: osv::Packages },
}

impl View for Finding {
    type V = FindingView;

    open spec fn view(&self) -> FindingView {
        match self {
            Finding::InsecureScheme { scheme, source } => FindingView::InsecureScheme {
                scheme: scheme@,
                source: source@,
            },
            Finding::UnknownScheme((scheme, source)) => FindingView::UnknownScheme {
                scheme: scheme@,
                source: source@,
            },
            Finding::WrongNumberOfChecksums { sources, alg, sums } => {
                FindingView::WrongNumberOfChecksums {
                    sources: *sources as nat,
                    alg: alg@,
                    sums: *sums as nat,
                }
            },
            Finding::GitCommitInsecurePin(g) => FindingView::GitCommitInsecurePin(g@),
            Finding::SvnInsecurePin(s) => FindingView::SvnInsecurePin(s@),
            Finding::HgRevisionInsecurePin(h) => FindingView::HgRevisionInsecurePin(h@),
            Finding::BzrInsecurePin(b) => FindingView::BzrInsecurePin(b@),
            Finding::UrlArtifactInsecurePin(u) => FindingView::UrlArtifactInsecurePin(u@),
            Finding::SecurityAdvisory { source, packages } => FindingView::SecurityAdvisory {
                source: source@,
                packages: *packages,
            },
        }
    }
}

pub open spec fn findings_view(f: Seq<Finding>) -> Seq<FindingView> {
    f.map_values(|x: Finding| x@)
}

/// The name under which a kind of finding is listed and filtered.
pub open spec fn finding_name(f: FindingView) -> Seq<char> {
    match f {
        FindingView::InsecureScheme { .. } => "insecure-scheme"@,
        FindingView::UnknownScheme { .. } => "unknown-scheme"@,
        FindingView::WrongNumberOfChecksums { .. } => "wrong-number-of-checksums"@,
        FindingView::GitCommitInsecurePin(_) => "git-commit-insecure-pin"@,
        FindingView::SvnInsecurePin(_) => "svn-insecure-pin"@,
        FindingView::HgRevisionInsecurePin(_) => "hg-revision-insecure-pin"@,
        FindingView::BzrInsecurePin(_) => "bzr-insecure-pin"@,
        FindingView::UrlArtifactInsecurePin(_) => "url-artifact-insecure-pin"@,
        FindingView::SecurityAdvisory { .. } => "security-advisory"@,
    }
}

/// The names of all kinds of finding.
pub const FINDING_NAMES: [&'static str; 9] = [
    "insecure-scheme",
    "unknown-scheme",
    "wrong-number-of-checksums",
    "git-commit-insecure-pin",
    "svn-insecure-pin",
    "hg-revision-insecure-pin",
    "bzr-insecure-pin",
    "url-artifact-insecure-pin",
    "security-advisory",
];

/// Every kind of finding is listed in `FINDING_NAMES` under the name that
/// filters match it by.
pub proof fn lemma_finding_names_listed(f: FindingView)
    ensures
        exists|i: int| 0 <= i < FINDING_NAMES@.len() && (#[trigger] FINDING_NAMES@[i])@ == finding_name(f),
{
    let names = FINDING_NAMES@;
    match f {
        FindingView::InsecureScheme { .. } => assert(names[0]@ == finding_name(f)),
        FindingView::UnknownScheme { .. } => assert(names[1]@ == finding_name(f)),
        FindingView::WrongNumberOfChecksums { .. } => assert(names[2]@ == finding_name(f)),
        FindingView::GitCommitInsecurePin(_) => assert(names[3]@ == finding_name(f)),
        FindingView::SvnInsecurePin(_) => assert(names[4]@ == finding_name(f)),
        FindingView::HgRevisionInsecurePin(_) => assert(names[5]@ == finding_name(f)),
        FindingView::BzrInsecurePin(_) => assert(names[6]@ == finding_name(f)),
        FindingView::UrlArtifactInsecurePin(_) => assert(names[7]@ == finding_name(f)),
        FindingView::SecurityAdvisory { .. } => assert(names[8]@ == finding_name(f)),
    }
}

/// A finding is reported when no filter is set, or when one names its kind.
pub open spec fn passes_filters(name: Seq<char>, filters: Seq<String>) -> bool {
    filters.len() == 0 || exists|j: int| 0 <= j < filters.len() && (#[trigger] filters[j])@ == name
}

impl Finding {
    pub fn name(&self) -> (r: &'static str)
        ensures
            r@ == finding_name(self@),
    {
        match self {
            Finding::InsecureScheme { .. } => "insecure-scheme",
            Finding::UnknownScheme(_) => "unknown-scheme",
            Finding::WrongNumberOfChecksums { .. } => "wrong-number-of-checksums",
            Finding::GitCommitInsecurePin(_) => "git-commit-insecure-pin",
            Finding::SvnInsecurePin(_) => "svn-insecure-pin",
            Finding::HgRevisionInsecurePin(_) => "hg-revision-insecure-pin",
            Finding::BzrInsecurePin(_) => "bzr-insecure-pin",
            Finding::UrlArtifactInsecurePin(_) => "url-artifact-insecure-pin",
            Finding::SecurityAdvisory { .. } => "security-advisory",
        }
    }

    /// Whether this finding passes the caller's filter set.
    pub fn matches_filters(&self, filters: &[String]) -> (r: bool)
        ensures
            r == passes_filters(finding_name(self@), filters@),
    {
        if filters.len() == 0 {
            return true;
        }
        let name = self.name();
        let mut j: usize = 0;
        while j < filters.len()
            invariant
                name@ == finding_name(self@),
                j <= filters@.len(),
                forall|k: int| 0 <= k < j ==> (#[trigger] filters@[k])@ != name@,
            decreases filters@.len() - j,
        {
            if str_eq(filters[j].as_str(), name) {
                return true;
            }
            j = j + 1;
        }
        false
    }

    /// Whether any of a target's findings passes the filter set.
    pub fn audit_list(target: &Target, findings: &[Finding], filters: &[String]) -> (r: bool)
        ensures
            r == exists|i: int|
                0 <= i < findings@.len() && passes_filters(
                    finding_name(#[trigger] findings@[i]@),
                    filters@,
                ),
    {
        let mut i: usize = 0;
        while i < findings.len()
            invariant
                i <= findings@.len(),
                forall|k: int|
                    0 <= k < i ==> !passes_filters(finding_name(#[trigger] findings@[k]@), filters@),
            decreases findings@.len() - i,
        {
            if findings[i].matches_filters(filters) {
                return true;
            }
            i = i + 1;
        }
        false
    }
}


pub open spec fn opt_seq<T>(o: Option<T>) -> Seq<T> {
    match o {
        Some(x) => seq![x],
        None => Seq::empty(),
    }
}

pub open spec fn sources_view(s: Seq<Source>) -> Seq<SourceView> {
    s.map_values(|x: Source| x@)
}

pub open spec fn authed_view(s: Seq<AuthedSource>) -> Seq<AuthedSourceView> {
    s.map_values(|x: AuthedSource| x@)
}

/// Schemes fetched as plain url artifacts.
pub open spec fn is_url_scheme(scheme: Seq<char>) -> bool {
    scheme == "https"@ || scheme == "http"@ || scheme == "ftp"@
}

/// How a declared source is fetched: by its scheme's family, `git*`, `svn*`,
/// `hg*` or `bzr*`; a url for any other scheme; a local file where there is
/// none.
pub open spec fn classify_spec(s: SourceView) -> AuthedSourceView {
    match scheme_of(s.url) {
        None => AuthedSourceView::File(s.url),
        Some(scheme) => if is_url_scheme(scheme) {
            AuthedSourceView::Url(url_artifact(s))
        } else if starts_with(scheme, "git"@) {
            AuthedSourceView::Git(parse_git(s.url))
        } else if starts_with(scheme, "svn"@) {
            AuthedSourceView::Svn(parse_revision_url(s.url))
        } else if starts_with(scheme, "hg"@) {
            AuthedSourceView::Hg(parse_revision_url(s.url))
        } else if starts_with(scheme, "bzr"@) {
            AuthedSourceView::Bzr(parse_revision_url(s.url))
        } else {
            AuthedSourceView::Url(url_artifact(s))
        },
    }
}

/// Within a version-control family: the insecure schemes are flagged as such,
/// any other but the secure one as unknown.
pub open spec fn family_scheme_finding(
    scheme: Seq<char>,
    s: SourceView,
    insecure: bool,
    secure: Seq<char>,
) -> Option<FindingView> {
    if insecure {
        Some(FindingView::InsecureScheme { scheme, source: s })
    } else if scheme != secure {
        Some(FindingView::UnknownScheme { scheme, source: s })
    } else {
        None
    }
}

/// The advisory finding, if any, that a source's scheme gives.
pub open spec fn scheme_finding(s: SourceView) -> Option<FindingView> {
    match scheme_of(s.url) {
        None => None,
        Some(scheme) => if is_url_scheme(scheme) {
            None
        } else if starts_with(scheme, "git"@) {
            family_scheme_finding(
                scheme,
                s,
                scheme == "git"@ || scheme == "git+http"@ || scheme == "git+git"@,
                "git+https"@,
            )
        } else if starts_with(scheme, "svn"@) {
            family_scheme_finding(scheme, s, scheme == "svn"@ || scheme == "svn+http"@, "svn+https"@)
        } else if starts_with(scheme, "hg"@) {
            family_scheme_finding(scheme, s, scheme == "hg+http"@, "hg+https"@)
        } else if starts_with(scheme, "bzr"@) {
            family_scheme_finding(scheme, s, scheme == "bzr+http"@, "bzr+https"@)
        } else {
            Some(FindingView::UnknownScheme { scheme, source: s })
        },
    }
}

/// The scheme findings of a list of sources, in order.
pub open spec fn scheme_findings(srcs: Seq<SourceView>) -> Seq<FindingView>
    decreases srcs.len(),
{
    if srcs.len() == 0 {
        Seq::empty()
    } else {
        scheme_findings(srcs.drop_last()) + opt_seq(scheme_finding(srcs.last()))
    }
}

fn push_family_finding(
    findings: &mut Vec<Finding>,
    scheme: &str,
    source: &Source,
    insecure: bool,
    secure: &str,
)
    ensures
        findings_view(final(findings)@) == findings_view(old(findings)@) + opt_seq(
            family_scheme_finding(scheme@, source@, insecure, secure@),
        ),
{
    let ghost before = findings_view(findings@);
    if insecure {
        findings.push(Finding::InsecureScheme { scheme: scheme.to_owned(), source: source.clone() });
    } else if !str_eq(scheme, secure) {
        findings.push(Finding::UnknownScheme((scheme.to_owned(), source.clone())));
    }
    assert(findings_view(findings@) =~= before + opt_seq(
        family_scheme_finding(scheme@, source@, insecure, secure@),
    ));
}

/// Classifies one declared source, appending the finding its scheme gives.
pub fn classify(source: Source, findings: &mut Vec<Finding>) -> (r: AuthedSource)
    ensures
        r@ == classify_spec(source@),
        findings_view(final(findings)@) == findings_view(old(findings)@) + opt_seq(
            scheme_finding(source@),
        ),
{
    let scheme: String = match source.scheme() {
        Some(s) => s.to_owned(),
        None => {
            assert(findings_view(findings@) =~= findings_view(findings@) + opt_seq(
                scheme_finding(source@),
            ));
            return AuthedSource::File(source.url().to_owned());
        },
    };
    let sc = scheme.as_str();
    let ghost before = findings_view(findings@);
    if str_eq(sc, "https") || str_eq(sc, "http") || str_eq(sc, "ftp") {
        assert(findings_view(findings@) =~= before + opt_seq(scheme_finding(source@)));
        AuthedSource::url(source)
    } else if str_starts_with(sc, "git") {
        let insecure = str_eq(sc, "git") || str_eq(sc, "git+http") || str_eq(sc, "git+git");
        push_family_finding(findings, sc, &source, insecure, "git+https");
        AuthedSource::Git(GitSource::parse(source.url()))
    } else if str_starts_with(sc, "svn") {
        let insecure = str_eq(sc, "svn") || str_eq(sc, "svn+http");
        push_family_finding(findings, sc, &source, insecure, "svn+https");
        AuthedSource::Svn(SvnSource::parse(source.url()))
    } else if str_starts_with(sc, "hg") {
        let insecure = str_eq(sc, "hg+http");
        push_family_finding(findings, sc, &source, insecure, "hg+https");
        AuthedSource::Hg(HgSource::parse(source.url()))
    } else if str_starts_with(sc, "bzr") {
        let insecure = str_eq(sc, "bzr+http");
        push_family_finding(findings, sc, &source, insecure, "bzr+https");
        AuthedSource::Bzr(BzrSource::parse(source.url()))
    } else {
        findings.push(Finding::UnknownScheme((scheme.clone(), source.clone())));
        assert(findings_view(findings@) =~= before + opt_seq(scheme_finding(source@)));
        AuthedSource::url(source)
    }
}

/// Classifies each declared source in order, appending the scheme findings.
pub fn classify_sources(sources: &Vec<Source>, findings: &mut Vec<Finding>) -> (r: Vec<
    AuthedSource,
>)
    ensures
        authed_view(r@) == sources_view(sources@).map_values(|s: SourceView| classify_spec(s)),
        findings_view(final(findings)@) == findings_view(old(findings)@) + scheme_findings(
            sources_view(sources@),
        ),
{
    let ghost before = findings_view(findings@);
    let mut r: Vec<AuthedSource> = Vec::new();
    let mut i: usize = 0;
    while i < sources.len()
        invariant
            i <= sources@.len(),
            authed_view(r@) == sources_view(sources@.subrange(0, i as int)).map_values(
                |s: SourceView| classify_spec(s),
            ),
            findings_view(findings@) == before + scheme_findings(
                sources_view(sources@.subrange(0, i as int)),
            ),
        decreases sources@.len() - i,
    {
        let ghost prefix = sources_view(sources@.subrange(0, i as int));
        let ghost next = sources_view(sources@.subrange(0, i + 1));
        assert(next.drop_last() =~= prefix);
        assert(next.last() == sources@[i as int]@);
        let ghost old_r = r@;
        let a = classify(sources[i].clone(), findings);
        r.push(a);
        assert(authed_view(r@) =~= authed_view(old_r).push(a@));
        assert(next.map_values(|s: SourceView| classify_spec(s)) =~= prefix.map_values(
            |s: SourceView| classify_spec(s),
        ).push(classify_spec(next.last())));
        i = i + 1;
    }
    assert(sources@.subrange(0, sources@.len() as int) =~= sources@);
    r
}


/// The values a recipe declares for one checksum variable, aligned with its
/// sources by index.
#[derive(Debug)]
pub struct ChecksumList {
    pub alg: String,
    pub values: Vec<String>,
}

pub open spec fn values_view(v: Seq<String>) -> Seq<Seq<char>> {
    v.map_values(|x: String| x@)
}

/// A value that stands for no checksum.
pub open spec fn is_skip(value: Seq<char>) -> bool {
    value == "SKIP"@
}

/// `v` with one more checksum, where it is a url artifact; otherwise `v`.
pub open spec fn add_checksum(v: AuthedSourceView, kind: ChecksumKind, value: Seq<char>) -> AuthedSourceView {
    match v {
        AuthedSourceView::Url(u) => AuthedSourceView::Url(
            UrlSourceView {
                url: u.url,
                filename: u.filename,
                checksums: u.checksums.push(ChecksumView { kind, value }),
            },
        ),
        _ => v,
    }
}

/// The sources after the first `upto` values of one checksum variable are
/// attached, each to the source at its index.
pub open spec fn attach_prefix(
    srcs: Seq<AuthedSourceView>,
    alg: Seq<char>,
    values: Seq<Seq<char>>,
    upto: int,
) -> Seq<AuthedSourceView> {
    Seq::new(
        srcs.len(),
        |k: int|
            if k < upto && k < values.len() && !is_skip(values[k]) {
                match checksum_kind_of(alg) {
                    Some(kind) => add_checksum(srcs[k], kind, values[k]),
                    None => srcs[k],
                }
            } else {
                srcs[k]
            },
    )
}

/// The sources after all values of one checksum variable are attached.
pub open spec fn attach_list(
    srcs: Seq<AuthedSourceView>,
    alg: Seq<char>,
    values: Seq<Seq<char>>,
) -> Seq<AuthedSourceView> {
    attach_prefix(srcs, alg, values, values.len() as int)
}

/// A checksum variable that cannot be read: an unknown algorithm with a
/// value that is not `SKIP`.
pub open spec fn list_refused(alg: Seq<char>, values: Seq<Seq<char>>) -> bool {
    checksum_kind_of(alg) is None && exists|k: int| 0 <= k < values.len() && !is_skip(#[trigger] values[k])
}

/// The count finding of one checksum variable: it declares values, but not
/// one for each source.
pub open spec fn count_finding(n_sources: nat, alg: Seq<char>, values: Seq<Seq<char>>) -> Seq<FindingView> {
    if values.len() != 0 && values.len() != n_sources {
        seq![FindingView::WrongNumberOfChecksums { sources: n_sources, alg, sums: values.len() }]
    } else {
        Seq::empty()
    }
}

/// Attaches one checksum variable's values to the url sources at their
/// indexes, appending a finding where the counts differ.
pub fn attach_checksums(
    sources: &mut Vec<AuthedSource>,
    list: &ChecksumList,
    findings: &mut Vec<Finding>,
) -> (r: Result<(), FsckError>)
    ensures
        match r {
            Ok(()) => {
                &&& !list_refused(list.alg@, values_view(list.values@))
                &&& authed_view(final(sources)@) == attach_list(
                    authed_view(old(sources)@),
                    list.alg@,
                    values_view(list.values@),
                )
                &&& findings_view(final(findings)@) == findings_view(old(findings)@)
                    + count_finding(old(sources)@.len(), list.alg@, values_view(list.values@))
            },
            Err(e) => {
                &&& list_refused(list.alg@, values_view(list.values@))
                &&& e matches FsckError::UnknownChecksumAlgorithm(a) && a@ == list.alg@
            },
        },
{
    let ghost srcs = authed_view(sources@);
    let ghost values = values_view(list.values@);
    let ghost before = findings_view(findings@);
    let n = sources.len();
    let m = list.values.len();
    if m != 0 && n != m {
        findings.push(
            Finding::WrongNumberOfChecksums { sources: n, alg: list.alg.clone(), sums: m },
        );
    }
    assert(findings_view(findings@) =~= before + count_finding(n as nat, list.alg@, values));
    assert(srcs =~= attach_prefix(srcs, list.alg@, values, 0));
    let mut i: usize = 0;
    while i < m
        invariant
            m == list.values@.len(),
            values == values_view(list.values@),
            sources@.len() == n,
            srcs.len() == n,
            i <= m,
            authed_view(sources@) == attach_prefix(srcs, list.alg@, values, i as int),
            forall|k: int|
                0 <= k < i && !is_skip(#[trigger] values[k]) ==> checksum_kind_of(list.alg@) is Some,
        decreases m - i,
    {
        let value = &list.values[i];
        if !str_eq(value.as_str(), "SKIP") {
            let cm = match Checksum::new(list.alg.as_str(), value.clone()) {
                Ok(c) => c,
                Err(e) => {
                    assert(!is_skip(values[i as int]));
                    return Err(e);
                },
            };
            if i < n {
                let ghost prev = authed_view(sources@);
                let ghost kind = checksum_kind_of(list.alg@)->Some_0;
                assert(cm@ == (ChecksumView { kind, value: values[i as int] }));
                if let AuthedSource::Url(u) = &mut sources[i] {
                    let ghost old_u = u@;
                    u.checksums.push(cm);
                    assert(u@.checksums =~= old_u.checksums.push(cm@));
                }
                assert(authed_view(sources@)[i as int] == add_checksum(prev[i as int], kind, values[i as int]));
                let ghost next = attach_prefix(srcs, list.alg@, values, i + 1);
                assert forall|k: int| 0 <= k < n implies authed_view(sources@)[k] == next[k] by {
                    if k != i {
                        assert(prev[k] == attach_prefix(srcs, list.alg@, values, i as int)[k]);
                    }
                }
                assert(authed_view(sources@) =~= next);
            } else {
                assert(attach_prefix(srcs, list.alg@, values, i as int) =~= attach_prefix(
                    srcs,
                    list.alg@,
                    values,
                    i + 1,
                ));
            }
        } else {
            assert(attach_prefix(srcs, list.alg@, values, i as int) =~= attach_prefix(
                srcs,
                list.alg@,
                values,
                i + 1,
            ));
        }
        i = i + 1;
    }
    Ok(())
}


pub open spec fn is_pinned_git(v: AuthedSourceView) -> bool {
    match v {
        AuthedSourceView::Git(g) => git_pinned(g),
        _ => false,
    }
}

/// Some git source of the recipe is securely pinned. Submodules are listed
/// unpinned beside the primary repository, and nothing tells them apart, so
/// one pinned git source exempts all the others.
pub open spec fn any_git_pinned(srcs: Seq<AuthedSourceView>) -> bool {
    exists|i: int| 0 <= i < srcs.len() && is_pinned_git(#[trigger] srcs[i])
}

/// The pin finding, if any, of one classified source.
pub open spec fn pin_finding(v: AuthedSourceView, any_git: bool) -> Option<FindingView> {
    match v {
        AuthedSourceView::File(_) => None,
        AuthedSourceView::Url(u) => if is_signature_name(artifact_name(u)) || has_secure_checksum(u) {
            None
        } else {
            Some(FindingView::UrlArtifactInsecurePin(u))
        },
        AuthedSourceView::Git(g) => if !any_git && !git_pinned(g) {
            Some(FindingView::GitCommitInsecurePin(g))
        } else {
            None
        },
        AuthedSourceView::Svn(s) => Some(FindingView::SvnInsecurePin(s)),
        AuthedSourceView::Hg(h) => if !hg_pinned(h) {
            Some(FindingView::HgRevisionInsecurePin(h))
        } else {
            None
        },
        AuthedSourceView::Bzr(b) => Some(FindingView::BzrInsecurePin(b)),
    }
}

/// The pin findings of a list of classified sources, in order.
pub open spec fn pin_findings(srcs: Seq<AuthedSourceView>, any_git: bool) -> Seq<FindingView>
    decreases srcs.len(),
{
    if srcs.len() == 0 {
        Seq::empty()
    } else {
        pin_findings(srcs.drop_last(), any_git) + opt_seq(pin_finding(srcs.last(), any_git))
    }
}

pub fn has_any_secure_git_sources(sources: &Vec<AuthedSource>) -> (r: bool)
    ensures
        r == any_git_pinned(authed_view(sources@)),
{
    let mut i: usize = 0;
    while i < sources.len()
        invariant
            i <= sources@.len(),
            forall|k: int| 0 <= k < i ==> !is_pinned_git(#[trigger] authed_view(sources@)[k]),
        decreases sources@.len() - i,
    {
        if let AuthedSource::Git(g) = &sources[i] {
            if g.is_commit_securely_pinned() {
                assert(is_pinned_git(authed_view(sources@)[i as int]));
                return true;
            }
        }
        i = i + 1;
    }
    false
}

/// Appends the pin finding, if any, of one classified source.
fn push_pin_finding(source: AuthedSource, any_git: bool, findings: &mut Vec<Finding>)
    ensures
        findings_view(final(findings)@) == findings_view(old(findings)@) + opt_seq(
            pin_finding(source@, any_git),
        ),
{
    let ghost before = findings_view(findings@);
    let ghost v = source@;
    match source {
        AuthedSource::File(_) => {},
        AuthedSource::Url(u) => {
            if !u.is_signature_file() && !u.has_secure_checksum() {
                findings.push(Finding::UrlArtifactInsecurePin(u));
            }
        },
        AuthedSource::Git(g) => {
            if !any_git && !g.is_commit_securely_pinned() {
                findings.push(Finding::GitCommitInsecurePin(g));
            }
        },
        AuthedSource::Svn(s) => {
            findings.push(Finding::SvnInsecurePin(s));
        },
        AuthedSource::Hg(h) => {
            if !h.is_revision_securely_pinned() {
                findings.push(Finding::HgRevisionInsecurePin(h));
            }
        },
        AuthedSource::Bzr(b) => {
            findings.push(Finding::BzrInsecurePin(b));
        },
    }
    assert(findings_view(findings@) =~= before + opt_seq(pin_finding(v, any_git)));
}

/// Applies the pin policy to each classified source, in order.
pub fn check_pins(sources: Vec<AuthedSource>, findings: &mut Vec<Finding>)
    ensures
        findings_view(final(findings)@) == findings_view(old(findings)@) + pin_findings(
            authed_view(sources@),
            any_git_pinned(authed_view(sources@)),
        ),
{
    let any_git = has_any_secure_git_sources(&sources);
    let ghost all = authed_view(sources@);
    let ghost before = findings_view(findings@);
    let mut rest = sources;
    let ghost n = all.len();
    let total = rest.len();
    assert(n == total);
    let mut i: usize = 0;
    while rest.len() > 0
        invariant
            n == all.len(),
            i <= n,
            rest@.len() == n - i,
            n <= usize::MAX,
            authed_view(rest@) == all.subrange(i as int, n as int),
            findings_view(findings@) == before + pin_findings(all.subrange(0, i as int), any_git),
        decreases rest@.len(),
    {
        let ghost prefix = all.subrange(0, i as int);
        let ghost next = all.subrange(0, i + 1);
        let ghost old_rest = rest@;
        assert(authed_view(old_rest).len() == old_rest.len());
        assert(authed_view(old_rest)[0] == old_rest[0]@);
        assert(all[i as int] == authed_view(old_rest)[0]);
        let source = rest.remove(0);
        assert(source@ == all[i as int]);
        assert(next.drop_last() =~= prefix);
        push_pin_finding(source, any_git, findings);
        assert(rest@ =~= old_rest.subrange(1, old_rest.len() as int));
        assert forall|k: int| 0 <= k < rest@.len() implies authed_view(rest@)[k] == all[i + 1 + k] by {
            assert(authed_view(old_rest)[k + 1] == old_rest[k + 1]@);
        }
        assert(authed_view(rest@) =~= all.subrange(i + 1, n as int));
        i = i + 1;
    }
    assert(all.subrange(0, n as int) =~= all);
}


pub open spec fn classify_all(srcs: Seq<SourceView>) -> Seq<AuthedSourceView> {
    srcs.map_values(|s: SourceView| classify_spec(s))
}

/// The sources after each checksum variable in turn is attached.
pub open spec fn attach_lists(srcs: Seq<AuthedSourceView>, lists: Seq<ChecksumList>) -> Seq<
    AuthedSourceView,
>
    decreases lists.len(),
{
    if lists.len() == 0 {
        srcs
    } else {
        attach_list(
            attach_lists(srcs, lists.drop_last()),
            lists.last().alg@,
            values_view(lists.last().values@),
        )
    }
}

/// The count findings of the checksum variables, in order.
pub open spec fn count_findings(n_sources: nat, lists: Seq<ChecksumList>) -> Seq<FindingView>
    decreases lists.len(),
{
    if lists.len() == 0 {
        Seq::empty()
    } else {
        count_findings(n_sources, lists.drop_last()) + count_finding(
            n_sources,
            lists.last().alg@,
            values_view(lists.last().values@),
        )
    }
}

pub open spec fn refused_at(lists: Seq<ChecksumList>, k: int) -> bool {
    list_refused(lists[k].alg@, values_view(lists[k].values@))
}

/// Some checksum variable of the recipe cannot be read.
pub open spec fn any_list_refused(lists: Seq<ChecksumList>) -> bool {
    exists|k: int| 0 <= k < lists.len() && #[trigger] refused_at(lists, k)
}

/// The findings of a recipe: scheme findings, then count findings, then pin
/// findings, each in declaration order.
pub open spec fn recipe_findings(srcs: Seq<SourceView>, lists: Seq<ChecksumList>) -> Seq<
    FindingView,
> {
    let attached = attach_lists(classify_all(srcs), lists);
    scheme_findings(srcs) + count_findings(srcs.len(), lists) + pin_findings(
        attached,
        any_git_pinned(attached),
    )
}

proof fn lemma_attach_list_len(srcs: Seq<AuthedSourceView>, lists: Seq<ChecksumList>)
    ensures
        attach_lists(srcs, lists).len() == srcs.len(),
    decreases lists.len(),
{
    if lists.len() > 0 {
        lemma_attach_list_len(srcs, lists.drop_last());
    }
}

/// Audits a recipe's declared sources against its checksum variables.
pub fn check_sources(sources: &Vec<Source>, checksums: &Vec<ChecksumList>) -> (r: Result<
    Vec<Finding>,
    FsckError,
>)
    ensures
        match r {
            Ok(findings) => !any_list_refused(checksums@) && findings_view(findings@)
                == recipe_findings(sources_view(sources@), checksums@),
            Err(e) => exists|k: int|
                {
                    &&& 0 <= k < checksums@.len()
                    &&& #[trigger] refused_at(checksums@, k)
                    &&& forall|j: int| 0 <= j < k ==> !refused_at(checksums@, j)
                    &&& (e matches FsckError::UnknownChecksumAlgorithm(a) && a@ == checksums@[k].alg@)
                },
        },
{
    let ghost srcs = sources_view(sources@);
    let mut findings: Vec<Finding> = Vec::new();
    let mut authed = classify_sources(sources, &mut findings);
    assert(findings_view(findings@) =~= scheme_findings(srcs));
    let ghost classified = authed_view(authed@);
    assert(classified.len() == srcs.len());
    let mut i: usize = 0;
    while i < checksums.len()
        invariant
            i <= checksums@.len(),
            classified == classify_all(srcs),
            classified.len() == srcs.len(),
            authed_view(authed@) == attach_lists(classified, checksums@.subrange(0, i as int)),
            findings_view(findings@) == scheme_findings(srcs) + count_findings(
                srcs.len(),
                checksums@.subrange(0, i as int),
            ),
            forall|j: int| 0 <= j < i ==> !refused_at(checksums@, j),
        decreases checksums@.len() - i,
    {
        let ghost prefix = checksums@.subrange(0, i as int);
        let ghost next = checksums@.subrange(0, i + 1);
        assert(next.drop_last() =~= prefix);
        proof {
            lemma_attach_list_len(classified, prefix);
        }
        match attach_checksums(&mut authed, &checksums[i], &mut findings) {
            Ok(()) => {},
            Err(e) => {
                assert(refused_at(checksums@, i as int));
                return Err(e);
            },
        }
        i = i + 1;
    }
    assert(checksums@.subrange(0, checksums@.len() as int) =~= checksums@);
    check_pins(authed, &mut findings);
    Ok(findings)
}


pub open spec fn advisories_of(path: Seq<char>, packages: Seq<osv::Packages>) -> Seq<FindingView> {
    packages.map_values(|p: osv::Packages| FindingView::SecurityAdvisory { source: path, packages: p })
}

/// One advisory finding per vulnerable package of each scanned file, each
/// file shown by the path given for it.
pub open spec fn advisories_spec(results: Seq<osv::ScanResult>, paths: Seq<String>) -> Seq<
    FindingView,
>
    decreases results.len(),
{
    if results.len() == 0 {
        Seq::empty()
    } else {
        advisories_spec(results.drop_last(), paths) + advisories_of(
            paths[results.len() - 1]@,
            results.last().packages@,
        )
    }
}

/// Turns a vulnerability scan's results into findings; `paths[i]` is how
/// the file of `results[i]` is shown.
pub fn security_advisories(results: Vec<osv::ScanResult>, paths: &Vec<String>) -> (r: Vec<Finding>)
    requires
        paths@.len() == results@.len(),
    ensures
        findings_view(r@) == advisories_spec(results@, paths@),
{
    let ghost all = results@;
    let ghost n = all.len();
    let total = results.len();
    let mut rest = results;
    let mut r: Vec<Finding> = Vec::new();
    let mut i: usize = 0;
    while rest.len() > 0
        invariant
            n == all.len(),
            n == total,
            paths@.len() == n,
            i <= n,
            rest@ == all.subrange(i as int, n as int),
            findings_view(r@) == advisories_spec(all.subrange(0, i as int), paths@),
        decreases rest@.len(),
    {
        let ghost old_rest = rest@;
        let result = rest.remove(0);
        assert(result == all[i as int]);
        let ghost next = all.subrange(0, i + 1);
        assert(next.drop_last() =~= all.subrange(0, i as int));
        let ghost before = findings_view(r@);
        let ghost pkgs = result.packages@;
        let mut packages = result.packages;
        let m = packages.len();
        let mut k: usize = 0;
        while packages.len() > 0
            invariant
                i < paths@.len(),
                m == pkgs.len(),
                k <= pkgs.len(),
                packages@ == pkgs.subrange(k as int, pkgs.len() as int),
                findings_view(r@) == before + advisories_of(paths@[i as int]@, pkgs.subrange(0, k as int)),
            decreases packages@.len(),
        {
            let p = packages.remove(0);
            assert(p == pkgs[k as int]);
            let ghost prev = r@;
            r.push(Finding::SecurityAdvisory { source: paths[i].clone(), packages: p });
            assert(advisories_of(paths@[i as int]@, pkgs.subrange(0, k + 1)) =~= advisories_of(
                paths@[i as int]@,
                pkgs.subrange(0, k as int),
            ).push(FindingView::SecurityAdvisory { source: paths@[i as int]@, packages: p }));
            assert(findings_view(r@) =~= findings_view(prev).push(r@.last()@));
            k = k + 1;
        }
        assert(pkgs.subrange(0, k as int) =~= pkgs);
        assert(rest@ =~= all.subrange(i + 1, n as int));
        i = i + 1;
    }
    assert(all.subrange(0, n as int) =~= all);
    r
}


/// The url to look for a signed tag behind: that of a url artifact which is
/// not itself a signature.
pub open spec fn lookup_url(v: AuthedSourceView) -> Option<Seq<char>> {
    match v {
        AuthedSourceView::Url(u) => if is_signature_name(artifact_name(u)) {
            None
        } else {
            Some(u.url)
        },
        _ => None,
    }
}

pub open spec fn lookup_urls(srcs: Seq<AuthedSourceView>) -> Seq<Seq<char>>
    decreases srcs.len(),
{
    if srcs.len() == 0 {
        Seq::empty()
    } else {
        lookup_urls(srcs.drop_last()) + opt_seq(lookup_url(srcs.last()))
    }
}

/// The urls of a recipe's artifacts that may come from a signed tag, in
/// declaration order.
pub fn tag_lookup_urls(sources: &Vec<Source>) -> (r: Vec<String>)
    ensures
        values_view(r@) == lookup_urls(classify_all(sources_view(sources@))),
{
    let mut scratch: Vec<Finding> = Vec::new();
    let authed = classify_sources(sources, &mut scratch);
    let ghost all = authed_view(authed@);
    assert(all =~= classify_all(sources_view(sources@)));
    let mut r: Vec<String> = Vec::new();
    let mut i: usize = 0;
    while i < authed.len()
        invariant
            all == authed_view(authed@),
            i <= authed@.len(),
            values_view(r@) == lookup_urls(all.subrange(0, i as int)),
        decreases authed@.len() - i,
    {
        let ghost next = all.subrange(0, i + 1);
        assert(next.drop_last() =~= all.subrange(0, i as int));
        let ghost prev = r@;
        if let AuthedSource::Url(u) = &authed[i] {
            if !u.is_signature_file() {
                r.push(u.url.clone());
            }
        }
        assert(values_view(r@) =~= values_view(prev) + opt_seq(lookup_url(all[i as int])));
        i = i + 1;
    }
    assert(all.subrange(0, all.len() as int) =~= all);
    r
}


/// A checksum algorithm pins securely exactly when it is sha256, sha512,
/// sha224, sha384 or blake2.
pub proof fn lemma_secure_algorithms(alg: Seq<char>)
    requires
        checksum_kind_of(alg) is Some,
    ensures
        kind_is_secure(checksum_kind_of(alg)->Some_0) <==> (alg == "sha256sums"@ || alg
            == "sha512sums"@ || alg == "sha224sums"@ || alg == "sha384sums"@ || alg == "b2sums"@),
{
    reveal_strlit("md5sums");
    reveal_strlit("sha1sums");
    reveal_strlit("sha256sums");
    reveal_strlit("sha512sums");
    reveal_strlit("sha224sums");
    reveal_strlit("sha384sums");
    reveal_strlit("b2sums");
    assert("md5sums"@.len() == 7);
    assert("sha1sums"@.len() == 8);
    assert("b2sums"@.len() == 6);
    assert("sha256sums"@.len() == 10);
    assert("sha512sums"@.len() == 10);
    assert("sha224sums"@.len() == 10);
    assert("sha384sums"@.len() == 10);
}

proof fn lemma_count_findings_kind(n: nat, lists: Seq<ChecksumList>)
    ensures
        forall|i: int|
            0 <= i < count_findings(n, lists).len() ==> (#[trigger] count_findings(
                n,
                lists,
            )[i]) is WrongNumberOfChecksums,
    decreases lists.len(),
{
    if lists.len() > 0 {
        lemma_count_findings_kind(n, lists.drop_last());
    }
}

proof fn lemma_scheme_findings_kind(srcs: Seq<SourceView>)
    ensures
        forall|i: int|
            0 <= i < scheme_findings(srcs).len() ==> {
                let f = #[trigger] scheme_findings(srcs)[i];
                f is InsecureScheme || f is UnknownScheme
            },
    decreases srcs.len(),
{
    if srcs.len() > 0 {
        lemma_scheme_findings_kind(srcs.drop_last());
    }
}

/// Every pin finding comes from one of the sources.
proof fn lemma_pin_findings_origin(srcs: Seq<AuthedSourceView>, any_git: bool)
    ensures
        forall|i: int|
            0 <= i < pin_findings(srcs, any_git).len() ==> exists|k: int|
                0 <= k < srcs.len() && pin_finding(#[trigger] srcs[k], any_git) == Some(
                    #[trigger] pin_findings(srcs, any_git)[i],
                ),
    decreases srcs.len(),
{
    if srcs.len() > 0 {
        let init = srcs.drop_last();
        lemma_pin_findings_origin(init, any_git);
        assert forall|i: int| 0 <= i < pin_findings(srcs, any_git).len() implies exists|k: int|
            0 <= k < srcs.len() && pin_finding(#[trigger] srcs[k], any_git) == Some(
                #[trigger] pin_findings(srcs, any_git)[i],
            ) by {
            if i < pin_findings(init, any_git).len() {
                let k = choose|k: int|
                    0 <= k < init.len() && pin_finding(#[trigger] init[k], any_git) == Some(
                        #[trigger] pin_findings(init, any_git)[i],
                    );
                assert(srcs[k] == init[k]);
            } else {
                assert(srcs[srcs.len() - 1] == srcs.last());
            }
        }
    }
}

pub open spec fn no_signature_flagged(fs: Seq<FindingView>) -> bool {
    forall|i: int|
        0 <= i < fs.len() ==> match #[trigger] fs[i] {
            FindingView::UrlArtifactInsecurePin(u) => !is_signature_name(artifact_name(u)),
            _ => true,
        }
}

/// A url artifact named like a detached signature (`.sig`, `.asc`, `.sign`)
/// never gets an insecure-pin finding, whatever checksums it has.
pub proof fn lemma_signature_never_flagged(srcs: Seq<SourceView>, lists: Seq<ChecksumList>)
    ensures
        no_signature_flagged(recipe_findings(srcs, lists)),
{
    let attached = attach_lists(classify_all(srcs), lists);
    let g = any_git_pinned(attached);
    let a = scheme_findings(srcs);
    let b = count_findings(srcs.len(), lists);
    let c = pin_findings(attached, g);
    lemma_scheme_findings_kind(srcs);
    lemma_count_findings_kind(srcs.len(), lists);
    lemma_pin_findings_origin(attached, g);
    let all = recipe_findings(srcs, lists);
    assert(all == a + b + c);
    assert forall|i: int| 0 <= i < all.len() implies match #[trigger] all[i] {
        FindingView::UrlArtifactInsecurePin(u) => !is_signature_name(artifact_name(u)),
        _ => true,
    } by {
        if i < a.len() {
            assert(all[i] == a[i]);
        } else if i < a.len() + b.len() {
            assert(all[i] == b[i - a.len()]);
        } else {
            assert(all[i] == c[i - a.len() - b.len()]);
        }
    }
}

/// A checksum variable with values, but not one for each source, gives a
/// count finding with both counts, right after the scheme findings.
pub proof fn lemma_count_mismatch(srcs: Seq<SourceView>, list: ChecksumList)
    requires
        list.values@.len() > 0,
        list.values@.len() != srcs.len(),
    ensures
        recipe_findings(srcs, seq![list])[scheme_findings(srcs).len() as int]
            == (FindingView::WrongNumberOfChecksums {
            sources: srcs.len(),
            alg: list.alg@,
            sums: list.values@.len(),
        }),
{
    let lists = seq![list];
    assert(lists.drop_last() =~= Seq::<ChecksumList>::empty());
    assert(lists.last() == list);
    assert(values_view(list.values@).len() == list.values@.len());
    assert(count_findings(srcs.len(), lists.drop_last()) == Seq::<FindingView>::empty());
    let b = count_findings(srcs.len(), lists);
    assert(b =~= seq![
        FindingView::WrongNumberOfChecksums {
            sources: srcs.len(),
            alg: list.alg@,
            sums: list.values@.len(),
        },
    ]);
    let attached = attach_lists(classify_all(srcs), lists);
    let a = scheme_findings(srcs);
    let c = pin_findings(attached, any_git_pinned(attached));
    assert((a + b + c)[a.len() as int] == b[0]);
}

/// Once any git source of a recipe is pinned by a full hash, no git source
/// of it is flagged.
pub proof fn lemma_pinned_git_exempts_recipe(srcs: Seq<SourceView>, lists: Seq<ChecksumList>)
    requires
        any_git_pinned(attach_lists(classify_all(srcs), lists)),
    ensures
        forall|i: int|
            0 <= i < recipe_findings(srcs, lists).len() ==> !((#[trigger] recipe_findings(
                srcs,
                lists,
            )[i]) is GitCommitInsecurePin),
{
    let attached = attach_lists(classify_all(srcs), lists);
    let a = scheme_findings(srcs);
    let b = count_findings(srcs.len(), lists);
    let c = pin_findings(attached, true);
    lemma_scheme_findings_kind(srcs);
    lemma_count_findings_kind(srcs.len(), lists);
    lemma_pin_findings_origin(attached, true);
    let all = recipe_findings(srcs, lists);
    assert forall|i: int| 0 <= i < all.len() implies !((#[trigger] all[i]) is GitCommitInsecurePin) by {
        if i < a.len() {
            assert(all[i] == a[i]);
        } else if i < a.len() + b.len() {
            assert(all[i] == b[i - a.len()]);
        } else {
            assert(all[i] == c[i - a.len() - b.len()]);
        }
    }
}

/// The git sources among classified sources, in order.
pub open spec fn git_sources(srcs: Seq<AuthedSourceView>) -> Seq<GitSourceView>
    decreases srcs.len(),
{
    if srcs.len() == 0 {
        Seq::empty()
    } else {
        git_sources(srcs.drop_last()) + match srcs.last() {
            AuthedSourceView::Git(g) => seq![g],
            _ => Seq::empty(),
        }
    }
}

/// The git sources that findings flag as not securely pinned, in order.
pub open spec fn git_flags(fs: Seq<FindingView>) -> Seq<GitSourceView>
    decreases fs.len(),
{
    if fs.len() == 0 {
        Seq::empty()
    } else {
        git_flags(fs.drop_last()) + match fs.last() {
            FindingView::GitCommitInsecurePin(g) => seq![g],
            _ => Seq::empty(),
        }
    }
}

/// The count findings among `fs` that name the checksum variable `alg`.
pub open spec fn count_flags_for(fs: Seq<FindingView>, alg: Seq<char>) -> Seq<FindingView>
    decreases fs.len(),
{
    if fs.len() == 0 {
        Seq::empty()
    } else {
        count_flags_for(fs.drop_last(), alg) + match fs.last() {
            FindingView::WrongNumberOfChecksums { alg: a, .. } => if a == alg {
                seq![fs.last()]
            } else {
                Seq::empty()
            },
            _ => Seq::empty(),
        }
    }
}

proof fn lemma_git_flags_add(a: Seq<FindingView>, b: Seq<FindingView>)
    ensures
        git_flags(a + b) == git_flags(a) + git_flags(b),
    decreases b.len(),
{
    if b.len() == 0 {
        assert(a + b =~= a);
        assert(git_flags(a) + git_flags(b) =~= git_flags(a));
    } else {
        assert((a + b).drop_last() =~= a + b.drop_last());
        assert((a + b).last() == b.last());
        lemma_git_flags_add(a, b.drop_last());
        assert(git_flags(a + b) =~= git_flags(a) + git_flags(b));
    }
}

proof fn lemma_count_flags_add(a: Seq<FindingView>, b: Seq<FindingView>, alg: Seq<char>)
    ensures
        count_flags_for(a + b, alg) == count_flags_for(a, alg) + count_flags_for(b, alg),
    decreases b.len(),
{
    if b.len() == 0 {
        assert(a + b =~= a);
        assert(count_flags_for(a, alg) + count_flags_for(b, alg) =~= count_flags_for(a, alg));
    } else {
        assert((a + b).drop_last() =~= a + b.drop_last());
        assert((a + b).last() == b.last());
        lemma_count_flags_add(a, b.drop_last(), alg);
        assert(count_flags_for(a + b, alg) =~= count_flags_for(a, alg) + count_flags_for(b, alg));
    }
}

proof fn lemma_flags_of_opt(o: Option<FindingView>, alg: Seq<char>)
    ensures
        git_flags(opt_seq(o)) == match o {
            Some(FindingView::GitCommitInsecurePin(g)) => seq![g],
            _ => Seq::<GitSourceView>::empty(),
        },
        count_flags_for(opt_seq(o), alg) == match o {
            Some(FindingView::WrongNumberOfChecksums { alg: a, sources, sums }) => if a == alg {
                seq![FindingView::WrongNumberOfChecksums { alg: a, sources, sums }]
            } else {
                Seq::<FindingView>::empty()
            },
            _ => Seq::<FindingView>::empty(),
        },
{
    assert(git_flags(Seq::<FindingView>::empty()) == Seq::<GitSourceView>::empty());
    assert(count_flags_for(Seq::<FindingView>::empty(), alg) == Seq::<FindingView>::empty());
    if let Some(f) = o {
        let s = seq![f];
        assert(s.drop_last() =~= Seq::<FindingView>::empty());
        assert(s.last() == f);
        assert(git_flags(s) =~= Seq::<GitSourceView>::empty() + match f {
            FindingView::GitCommitInsecurePin(g) => seq![g],
            _ => Seq::<GitSourceView>::empty(),
        });
        assert(count_flags_for(s, alg) =~= Seq::<FindingView>::empty() + match f {
            FindingView::WrongNumberOfChecksums { alg: a, .. } => if a == alg {
                seq![f]
            } else {
                Seq::<FindingView>::empty()
            },
            _ => Seq::<FindingView>::empty(),
        });
    }
}

proof fn lemma_scheme_findings_flag_nothing(srcs: Seq<SourceView>, alg: Seq<char>)
    ensures
        git_flags(scheme_findings(srcs)) == Seq::<GitSourceView>::empty(),
        count_flags_for(scheme_findings(srcs), alg) == Seq::<FindingView>::empty(),
    decreases srcs.len(),
{
    if srcs.len() > 0 {
        let init = scheme_findings(srcs.drop_last());
        let last = opt_seq(scheme_finding(srcs.last()));
        lemma_scheme_findings_flag_nothing(srcs.drop_last(), alg);
        lemma_git_flags_add(init, last);
        lemma_count_flags_add(init, last, alg);
        lemma_flags_of_opt(scheme_finding(srcs.last()), alg);
    }
}

proof fn lemma_pin_findings_count_nothing(srcs: Seq<AuthedSourceView>, any_git: bool, alg: Seq<char>)
    ensures
        count_flags_for(pin_findings(srcs, any_git), alg) == Seq::<FindingView>::empty(),
    decreases srcs.len(),
{
    if srcs.len() > 0 {
        let init = pin_findings(srcs.drop_last(), any_git);
        let last = opt_seq(pin_finding(srcs.last(), any_git));
        lemma_pin_findings_count_nothing(srcs.drop_last(), any_git, alg);
        lemma_count_flags_add(init, last, alg);
        lemma_flags_of_opt(pin_finding(srcs.last(), any_git), alg);
    }
}

proof fn lemma_count_findings_flag_no_git(n: nat, lists: Seq<ChecksumList>)
    ensures
        git_flags(count_findings(n, lists)) == Seq::<GitSourceView>::empty(),
    decreases lists.len(),
{
    if lists.len() > 0 {
        let l = lists.last();
        let init = count_findings(n, lists.drop_last());
        let last = count_finding(n, l.alg@, values_view(l.values@));
        lemma_count_findings_flag_no_git(n, lists.drop_last());
        lemma_git_flags_add(init, last);
        if last.len() > 0 {
            let w = FindingView::WrongNumberOfChecksums {
                sources: n,
                alg: l.alg@,
                sums: values_view(l.values@).len(),
            };
            assert(last =~= opt_seq(Some(w)));
            lemma_flags_of_opt(Some(w), Seq::empty());
        } else {
            assert(last =~= opt_seq(None::<FindingView>));
            lemma_flags_of_opt(None, Seq::empty());
        }
    }
}

/// With no git source pinned, the pin findings flag exactly the git
/// sources, in order.
proof fn lemma_git_flags_pins(srcs: Seq<AuthedSourceView>)
    requires
        forall|k: int| 0 <= k < srcs.len() ==> !is_pinned_git(#[trigger] srcs[k]),
    ensures
        git_flags(pin_findings(srcs, false)) == git_sources(srcs),
    decreases srcs.len(),
{
    if srcs.len() > 0 {
        let init = srcs.drop_last();
        assert forall|k: int| 0 <= k < init.len() implies !is_pinned_git(#[trigger] init[k]) by {
            assert(init[k] == srcs[k]);
        }
        lemma_git_flags_pins(init);
        let last = opt_seq(pin_finding(srcs.last(), false));
        lemma_git_flags_add(pin_findings(init, false), last);
        lemma_flags_of_opt(pin_finding(srcs.last(), false), Seq::empty());
        assert(!is_pinned_git(srcs[srcs.len() - 1]));
    }
}

/// When no git source of a recipe is pinned by a full hash, the recipe's
/// findings flag each git source exactly once, in declaration order.
pub proof fn lemma_unpinned_git_flagged_in_order(srcs: Seq<SourceView>, lists: Seq<ChecksumList>)
    requires
        !any_git_pinned(attach_lists(classify_all(srcs), lists)),
    ensures
        git_flags(recipe_findings(srcs, lists)) == git_sources(
            attach_lists(classify_all(srcs), lists),
        ),
{
    let attached = attach_lists(classify_all(srcs), lists);
    let a = scheme_findings(srcs);
    let b = count_findings(srcs.len(), lists);
    let c = pin_findings(attached, false);
    assert forall|k: int| 0 <= k < attached.len() implies !is_pinned_git(#[trigger] attached[k]) by {}
    lemma_git_flags_pins(attached);
    lemma_scheme_findings_flag_nothing(srcs, Seq::empty());
    lemma_count_findings_flag_no_git(srcs.len(), lists);
    lemma_git_flags_add(a, b);
    lemma_git_flags_add(a + b, c);
    assert(git_flags(recipe_findings(srcs, lists)) =~= git_sources(attached));
}

proof fn lemma_count_finding_for(n: nat, a: Seq<char>, values: Seq<Seq<char>>, alg: Seq<char>)
    ensures
        count_flags_for(count_finding(n, a, values), alg) == if a == alg {
            count_finding(n, a, values)
        } else {
            Seq::<FindingView>::empty()
        },
{
    let f = count_finding(n, a, values);
    if f.len() > 0 {
        let w = FindingView::WrongNumberOfChecksums { sources: n, alg: a, sums: values.len() };
        assert(f =~= opt_seq(Some(w)));
        lemma_flags_of_opt(Some(w), alg);
    } else {
        assert(f =~= opt_seq(None::<FindingView>));
        lemma_flags_of_opt(None, alg);
    }
}

proof fn lemma_count_findings_for(n: nat, lists: Seq<ChecksumList>, alg: Seq<char>)
    ensures
        (forall|j: int| 0 <= j < lists.len() ==> (#[trigger] lists[j]).alg@ != alg) ==> count_flags_for(
            count_findings(n, lists),
            alg,
        ) == Seq::<FindingView>::empty(),
        forall|k: int|
            0 <= k < lists.len() && (forall|j: int|
                0 <= j < lists.len() && j != k ==> (#[trigger] lists[j]).alg@ != alg)
                && lists[k].alg@ == alg ==> count_flags_for(count_findings(n, lists), alg)
                == count_finding(n, alg, values_view(lists[k].values@)),
    decreases lists.len(),
{
    if lists.len() > 0 {
        let init = lists.drop_last();
        let l = lists.last();
        lemma_count_findings_for(n, init, alg);
        lemma_count_flags_add(
            count_findings(n, init),
            count_finding(n, l.alg@, values_view(l.values@)),
            alg,
        );
        lemma_count_finding_for(n, l.alg@, values_view(l.values@), alg);
        assert forall|k: int|
            0 <= k < lists.len() && (forall|j: int|
                0 <= j < lists.len() && j != k ==> (#[trigger] lists[j]).alg@ != alg)
                && lists[k].alg@ == alg implies count_flags_for(count_findings(n, lists), alg)
            == count_finding(n, alg, values_view(lists[k].values@)) by {
            if k == lists.len() - 1 {
                assert forall|j: int| 0 <= j < init.len() implies (#[trigger] init[j]).alg@ != alg by {
                    assert(init[j] == lists[j]);
                }
                assert(count_flags_for(count_findings(n, init), alg) =~= Seq::<FindingView>::empty());
                assert(count_flags_for(count_findings(n, lists), alg) =~= count_finding(
                    n,
                    alg,
                    values_view(lists[k].values@),
                ));
            } else {
                assert(lists[lists.len() - 1].alg@ != alg);
                assert(init[k] == lists[k]);
                assert forall|j: int| 0 <= j < init.len() && j != k implies (#[trigger] init[j]).alg@
                    != alg by {
                    assert(init[j] == lists[j]);
                }
                assert(count_flags_for(count_findings(n, lists), alg) =~= count_flags_for(
                    count_findings(n, init),
                    alg,
                ));
            }
        }
        if forall|j: int| 0 <= j < lists.len() ==> (#[trigger] lists[j]).alg@ != alg {
            assert forall|j: int| 0 <= j < init.len() implies (#[trigger] init[j]).alg@ != alg by {
                assert(init[j] == lists[j]);
            }
            assert(lists[lists.len() - 1].alg@ != alg);
            assert(count_flags_for(count_findings(n, lists), alg) =~= Seq::<FindingView>::empty());
        }
    }
}

/// For a checksum variable declared once: the recipe's findings name it in
/// exactly one count finding, with the counts of sources and of values, when
/// it declares values but not one for each source, and in none otherwise.
pub proof fn lemma_count_finding_per_variable(
    srcs: Seq<SourceView>,
    lists: Seq<ChecksumList>,
    k: int,
)
    requires
        0 <= k < lists.len(),
        forall|j: int| 0 <= j < lists.len() && j != k ==> (#[trigger] lists[j]).alg@ != lists[k].alg@,
    ensures
        count_flags_for(recipe_findings(srcs, lists), lists[k].alg@) == count_finding(
            srcs.len(),
            lists[k].alg@,
            values_view(lists[k].values@),
        ),
{
    let alg = lists[k].alg@;
    let attached = attach_lists(classify_all(srcs), lists);
    let g = any_git_pinned(attached);
    let a = scheme_findings(srcs);
    let b = count_findings(srcs.len(), lists);
    let c = pin_findings(attached, g);
    lemma_scheme_findings_flag_nothing(srcs, alg);
    lemma_pin_findings_count_nothing(attached, g, alg);
    lemma_count_findings_for(srcs.len(), lists, alg);
    lemma_count_flags_add(a, b, alg);
    lemma_count_flags_add(a + b, c, alg);
    assert(count_flags_for(recipe_findings(srcs, lists), alg) =~= count_flags_for(b, alg));
}

} // verus!
