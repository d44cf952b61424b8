//! Human-readable rendering of findings.

use vstd::prelude::*;
use crate::fsck::{Checksum, ChecksumKind, ChecksumView, Finding, FindingView, UrlSource, UrlSourceView};
use crate::git::{GitSource, GitSourceView};
use crate::hg::RevisionSourceView;
use crate::makepkg::{Source, SourceView};
use crate::osv;
use crate::text::string_opt_view;

verus! {

pub open spec fn digit_char(d: nat) -> char {
    if d == 0 { '0' }
    else if d == 1 { '1' }
    else if d == 2 { '2' }
    else if d == 3 { '3' }
    else if d == 4 { '4' }
    else if d == 5 { '5' }
    else if d == 6 { '6' }
    else if d == 7 { '7' }
    else if d == 8 { '8' }
    else { '9' }
}

/// `n` in decimal, without leading zeros.
pub open spec fn decimal(n: nat) -> Seq<char>
    decreases n,
{
    if n < 10 {
        seq![digit_char(n)]
    } else {
        decimal(n / 10) + seq![digit_char(n % 10)]
    }
}

fn digit_str(d: usize) -> (r: &'static str)
    requires
        d < 10,
    ensures
        r@ == seq![digit_char(d as nat)],
{
    proof {
        reveal_strlit("0");
        reveal_strlit("1");
        reveal_strlit("2");
        reveal_strlit("3");
        reveal_strlit("4");
        reveal_strlit("5");
        reveal_strlit("6");
        reveal_strlit("7");
        reveal_strlit("8");
        reveal_strlit("9");
    }
    if d == 0 { "0" }
    else if d == 1 { "1" }
    else if d == 2 { "2" }
    else if d == 3 { "3" }
    else if d == 4 { "4" }
    else if d == 5 { "5" }
    else if d == 6 { "6" }
    else if d == 7 { "7" }
    else if d == 8 { "8" }
    else { "9" }
}

/// Writes `n` in decimal.
pub fn decimal_string(n: usize) -> (r: String)
    ensures
        r@ == decimal(n as nat),
    decreases n,
{
    if n < 10 {
        let mut s = String::new();
        s.append(digit_str(n));
        s
    } else {
        let mut s = decimal_string(n / 10);
        s.append(digit_str(n % 10));
        s
    }
}


/// What std's `Debug` writes for a string: the string in double quotes,
/// with quotes, backslashes, control and non-printable characters escaped.
pub uninterp spec fn str_debug(s: Seq<char>) -> Seq<char>;

/// What std's `Debug` writes for a path: the path in double quotes, its
/// characters escaped.
pub uninterp spec fn path_debug(p: Seq<char>) -> Seq<char>;

/// Relies on std's `Debug` for `str` (`format!("{:?}")`): the quoted,
/// escaped string, a function of its characters alone.
#[verifier::external_body]
fn debug_str(s: &str) -> (r: String)
    ensures
        r@ == str_debug(s@),
{
    format!("{:?}", s)
}

/// Relies on std's `Debug` for `std::path::Path` (`format!("{:?}")`): the
/// quoted, escaped path, a function of its characters alone.
#[verifier::external_body]
fn debug_path(p: &str) -> (r: String)
    ensures
        r@ == path_debug(p@),
{
    format!("{:?}", std::path::Path::new(p))
}

/// An optional string as `Debug` shows it: `Some("…")` or `None`.
pub open spec fn opt_debug(v: Option<Seq<char>>) -> Seq<char> {
    match v {
        Some(x) => "Some("@ + str_debug(x) + ")"@,
        None => "None"@,
    }
}

pub open spec fn bool_debug(b: bool) -> Seq<char> {
    if b {
        "true"@
    } else {
        "false"@
    }
}

/// A declared source as `Debug` shows it: `Url("…")` or
/// `UrlWithFilename(("…", "…"))`.
pub open spec fn source_debug(s: SourceView) -> Seq<char> {
    match s.filename {
        Some(f) => "UrlWithFilename(("@ + str_debug(s.url) + ", "@ + str_debug(f) + "))"@,
        None => "Url("@ + str_debug(s.url) + ")"@,
    }
}

pub open spec fn git_debug(g: GitSourceView) -> Seq<char> {
    "GitSource { url: "@ + str_debug(g.url) + ", commit: "@ + opt_debug(g.commit) + ", tag: "@
        + opt_debug(g.tag) + ", signed: "@ + bool_debug(g.signed) + " }"@
}

/// `SvnSource`, `HgSource` or `BzrSource` as `Debug` shows it.
pub open spec fn revision_debug(name: Seq<char>, r: RevisionSourceView) -> Seq<char> {
    name + " { url: "@ + str_debug(r.url) + ", revision: "@ + opt_debug(r.revision) + " }"@
}

pub open spec fn kind_debug(k: ChecksumKind) -> Seq<char> {
    match k {
        ChecksumKind::Md5 => "Md5"@,
        ChecksumKind::Sha1 => "Sha1"@,
        ChecksumKind::Sha256 => "Sha256"@,
        ChecksumKind::Sha512 => "Sha512"@,
        ChecksumKind::Sha224 => "Sha224"@,
        ChecksumKind::Sha384 => "Sha384"@,
        ChecksumKind::B2 => "B2"@,
    }
}

pub open spec fn checksum_debug(c: ChecksumView) -> Seq<char> {
    kind_debug(c.kind) + "("@ + str_debug(c.value) + ")"@
}

/// The checksums as `Debug` shows their elements, separated by `, `.
pub open spec fn checksum_items(cs: Seq<ChecksumView>) -> Seq<char>
    decreases cs.len(),
{
    if cs.len() == 0 {
        Seq::empty()
    } else if cs.len() == 1 {
        checksum_debug(cs[0])
    } else {
        checksum_items(cs.drop_last()) + ", "@ + checksum_debug(cs.last())
    }
}

pub open spec fn url_source_debug(u: UrlSourceView) -> Seq<char> {
    "UrlSource { url: "@ + str_debug(u.url) + ", filename: "@ + opt_debug(u.filename)
        + ", checksums: ["@ + checksum_items(u.checksums) + "] }"@
}

fn append_str_debug(s: &mut String, v: &str)
    ensures
        final(s)@ == old(s)@ + str_debug(v@),
{
    let d = debug_str(v);
    s.append(d.as_str());
}

fn append_opt_debug(s: &mut String, v: &Option<String>)
    ensures
        final(s)@ == old(s)@ + opt_debug(string_opt_view(*v)),
{
    match v {
        Some(x) => {
            s.append("Some(");
            append_str_debug(s, x.as_str());
            s.append(")");
        },
        None => s.append("None"),
    }
}

fn append_source_debug(s: &mut String, source: &Source)
    ensures
        final(s)@ == old(s)@ + source_debug(source@),
{
    match source {
        Source::Url(url) => {
            s.append("Url(");
            append_str_debug(s, url.as_str());
            s.append(")");
        },
        Source::UrlWithFilename((url, filename)) => {
            s.append("UrlWithFilename((");
            append_str_debug(s, url.as_str());
            s.append(", ");
            append_str_debug(s, filename.as_str());
            s.append("))");
        },
    }
}

fn append_git_debug(s: &mut String, g: &GitSource)
    ensures
        final(s)@ == old(s)@ + git_debug(g@),
{
    s.append("GitSource { url: ");
    append_str_debug(s, g.url.as_str());
    s.append(", commit: ");
    append_opt_debug(s, &g.commit);
    s.append(", tag: ");
    append_opt_debug(s, &g.tag);
    s.append(", signed: ");
    if g.signed {
        s.append("true");
    } else {
        s.append("false");
    }
    s.append(" }");
}

fn append_revision_debug(s: &mut String, name: &str, url: &String, revision: &Option<String>)
    ensures
        final(s)@ == old(s)@ + revision_debug(
            name@,
            RevisionSourceView { url: url@, revision: string_opt_view(*revision) },
        ),
{
    s.append(name);
    s.append(" { url: ");
    append_str_debug(s, url.as_str());
    s.append(", revision: ");
    append_opt_debug(s, revision);
    s.append(" }");
}

fn append_checksum_debug(s: &mut String, c: &Checksum)
    ensures
        final(s)@ == old(s)@ + checksum_debug(c@),
{
    let value = match c {
        Checksum::Md5(v) => {
            s.append("Md5");
            v
        },
        Checksum::Sha1(v) => {
            s.append("Sha1");
            v
        },
        Checksum::Sha256(v) => {
            s.append("Sha256");
            v
        },
        Checksum::Sha512(v) => {
            s.append("Sha512");
            v
        },
        Checksum::Sha224(v) => {
            s.append("Sha224");
            v
        },
        Checksum::Sha384(v) => {
            s.append("Sha384");
            v
        },
        Checksum::B2(v) => {
            s.append("B2");
            v
        },
    };
    s.append("(");
    append_str_debug(s, value.as_str());
    s.append(")");
}

fn append_url_source_debug(s: &mut String, u: &UrlSource)
    ensures
        final(s)@ == old(s)@ + url_source_debug(u@),
{
    let ghost start = s@;
    s.append("UrlSource { url: ");
    append_str_debug(s, u.url.as_str());
    s.append(", filename: ");
    append_opt_debug(s, &u.filename);
    s.append(", checksums: [");
    let ghost before = s@;
    let ghost cs = u@.checksums;
    let mut i: usize = 0;
    while i < u.checksums.len()
        invariant
            cs == u@.checksums,
            i <= cs.len(),
            s@ == before + checksum_items(cs.subrange(0, i as int)),
        decreases cs.len() - i,
    {
        let ghost next = cs.subrange(0, i + 1);
        assert(next.drop_last() =~= cs.subrange(0, i as int));
        assert(next.last() == u.checksums@[i as int]@);
        if i > 0 {
            s.append(", ");
        }
        append_checksum_debug(s, &u.checksums[i]);
        assert(s@ =~= before + checksum_items(next));
        i = i + 1;
    }
    assert(cs.subrange(0, cs.len() as int) =~= cs);
    s.append("] }");
    assert(s@ =~= start + url_source_debug(u@));
}

/// The ids of all advisory groups, in order.
pub open spec fn group_ids(groups: Seq<osv::Group>) -> Seq<String>
    decreases groups.len(),
{
    if groups.len() == 0 {
        Seq::empty()
    } else {
        group_ids(groups.drop_last()) + groups.last().ids@
    }
}

pub open spec fn advisory_link(id: Seq<char>) -> Seq<char> {
    "https://osv.dev/vulnerability/"@ + id
}

/// Links to the advisories, separated by `, `.
pub open spec fn advisory_links(ids: Seq<String>) -> Seq<char>
    decreases ids.len(),
{
    if ids.len() == 0 {
        Seq::empty()
    } else if ids.len() == 1 {
        advisory_link(ids[0]@)
    } else {
        advisory_links(ids.drop_last()) + ", "@ + advisory_link(ids.last()@)
    }
}

pub open spec fn package_ids(p: osv::Packages) -> Seq<String> {
    match p.groups {
        Some(g) => group_ids(g@),
        None => Seq::empty(),
    }
}

fn append_links(s: &mut String, p: &osv::Packages)
    ensures
        final(s)@ == old(s)@ + advisory_links(package_ids(*p)),
{
    let ghost start = s@;
    let groups = match &p.groups {
        Some(g) => g,
        None => {
            assert(s@ =~= start + advisory_links(package_ids(*p)));
            return;
        },
    };
    let mut first = true;
    let mut i: usize = 0;
    while i < groups.len()
        invariant
            p.groups == Some(*groups),
            i <= groups@.len(),
            first == (group_ids(groups@.subrange(0, i as int)).len() == 0),
            s@ == start + advisory_links(group_ids(groups@.subrange(0, i as int))),
        decreases groups@.len() - i,
    {
        let ghost before = group_ids(groups@.subrange(0, i as int));
        assert(groups@.subrange(0, i + 1).drop_last() =~= groups@.subrange(0, i as int));
        let ids = &groups[i].ids;
        let mut k: usize = 0;
        while k < ids.len()
            invariant
                i < groups@.len(),
                *ids == groups@[i as int].ids,
                k <= ids@.len(),
                first == ((before + ids@.subrange(0, k as int)).len() == 0),
                s@ == start + advisory_links(before + ids@.subrange(0, k as int)),
            decreases ids@.len() - k,
        {
            let ghost cur = before + ids@.subrange(0, k as int);
            let ghost next = before + ids@.subrange(0, k + 1);
            assert(next.drop_last() =~= cur);
            assert(next.last() == ids@[k as int]);
            if first {
                first = false;
            } else {
                s.append(", ");
            }
            s.append("https://osv.dev/vulnerability/");
            s.append(ids[k].as_str());
            assert(s@ =~= start + advisory_links(next));
            k = k + 1;
        }
        assert(ids@.subrange(0, ids@.len() as int) =~= ids@);
        i = i + 1;
    }
    assert(groups@.subrange(0, groups@.len() as int) =~= groups@);
}

/// The version of a vulnerable package, `-` where none is known.
pub open spec fn version_text(p: osv::Packages) -> Seq<char> {
    match p.package.version {
        Some(v) => v@,
        None => "-"@,
    }
}

/// The message shown for a finding: source records and quoted values as
/// `Debug` writes them.
pub open spec fn message_spec(f: FindingView) -> Seq<char> {
    match f {
        FindingView::InsecureScheme { scheme, source } => "Using insecure "@ + scheme
            + ":// scheme: "@ + source_debug(source),
        FindingView::UnknownScheme { scheme, source } => "Unknown scheme "@ + str_debug(scheme)
            + ": "@ + source_debug(source),
        FindingView::WrongNumberOfChecksums { sources, alg, sums } =>
            "Number of checksums doesn't match number of sources (sources="@ + decimal(sources)
            + ", "@ + alg + "="@ + decimal(sums) + ")"@,
        FindingView::GitCommitInsecurePin(g) => "Git commit is not securely pinned: "@ + git_debug(g),
        FindingView::SvnInsecurePin(r) => "svn is never a cryptographically secure pin: "@
            + revision_debug("SvnSource"@, r),
        FindingView::HgRevisionInsecurePin(r) => "Hg revision is not securely pinned: "@
            + revision_debug("HgSource"@, r),
        FindingView::BzrInsecurePin(r) => "bzr is never a cryptographically secure pin: "@
            + revision_debug("BzrSource"@, r),
        FindingView::UrlArtifactInsecurePin(u) => "Url artifact is not securely pinned by checksums: "@
            + url_source_debug(u),
        FindingView::SecurityAdvisory { source, packages } =>
            "Security advisory exists in dependency "@ + str_debug(packages.package.name@) + " "@
            + str_debug(version_text(packages)) + " referenced by checked out source code at "@
            + path_debug(source) + ": "@ + advisory_links(package_ids(packages)),
    }
}

impl Finding {
    /// The message shown for this finding.
    pub fn message(&self) -> (r: String)
        ensures
            r@ == message_spec(self@),
    {
        let mut s = String::new();
        match self {
            Finding::InsecureScheme { scheme, source } => {
                s.append("Using insecure ");
                s.append(scheme.as_str());
                s.append(":// scheme: ");
                append_source_debug(&mut s, source);
            },
            Finding::UnknownScheme((scheme, source)) => {
                s.append("Unknown scheme ");
                append_str_debug(&mut s, scheme.as_str());
                s.append(": ");
                append_source_debug(&mut s, source);
            },
            Finding::WrongNumberOfChecksums { sources, alg, sums } => {
                s.append("Number of checksums doesn't match number of sources (sources=");
                s.append(decimal_string(*sources).as_str());
                s.append(", ");
                s.append(alg.as_str());
                s.append("=");
                s.append(decimal_string(*sums).as_str());
                s.append(")");
            },
            Finding::GitCommitInsecurePin(g) => {
                s.append("Git commit is not securely pinned: ");
                append_git_debug(&mut s, g);
            },
            Finding::SvnInsecurePin(r) => {
                s.append("svn is never a cryptographically secure pin: ");
                append_revision_debug(&mut s, "SvnSource", &r.url, &r.revision);
            },
            Finding::HgRevisionInsecurePin(r) => {
                s.append("Hg revision is not securely pinned: ");
                append_revision_debug(&mut s, "HgSource", &r.url, &r.revision);
            },
            Finding::BzrInsecurePin(r) => {
                s.append("bzr is never a cryptographically secure pin: ");
                append_revision_debug(&mut s, "BzrSource", &r.url, &r.revision);
            },
            Finding::UrlArtifactInsecurePin(u) => {
                s.append("Url artifact is not securely pinned by checksums: ");
                append_url_source_debug(&mut s, u);
            },
            Finding::SecurityAdvisory { source, packages } => {
                s.append("Security advisory exists in dependency ");
                append_str_debug(&mut s, packages.package.name.as_str());
                s.append(" ");
                match &packages.package.version {
                    Some(v) => append_str_debug(&mut s, v.as_str()),
                    None => append_str_debug(&mut s, "-"),
                }
                s.append(" referenced by checked out source code at ");
                let p = debug_path(source.as_str());
                s.append(p.as_str());
                s.append(": ");
                append_links(&mut s, packages);
            },
        }
        assert(s@ =~= message_spec(self@));
        s
    }
}

} // verus!
