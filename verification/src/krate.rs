//! The identity model: a dependency's provenance-qualified identity and the
//! storage keys derived from it.
//!
//! Equality and ordering of a dependency go by its source alone, never by
//! name or version: two name/version pairs resolving to the same repository
//! and revision are one thing for mirroring, and must be fetched and stored
//! exactly once.

use vstd::prelude::*;
use vstd::string::*;

use crate::giturl::{
    canonical_url_model, canonicalize_git_url, ident_model, parse_url, url_parse_of, UrlParts,
    UrlPartsModel,
};
use crate::text::{lex_le, lex_le_antisym, lex_le_total, lex_le_trans, str_lex_le};
use crate::MirrorError;

verus! {

// ------------------------------------------------------------------
// Sources
// ------------------------------------------------------------------

/// Where a dependency comes from. The content checksum identifies a registry
/// package; a canonical URL, short revision and identity token identify a
/// pinned git repository.
pub enum Source {
    CratesIo(String),
    Git { url: String, rev: String, ident: String },
}

/// The mathematical shape of a source.
pub enum SourceModel {
    CratesIo(Seq<char>),
    Git { url: Seq<char>, rev: Seq<char>, ident: Seq<char> },
}

impl View for Source {
    type V = SourceModel;

    open spec fn view(&self) -> SourceModel {
        match self {
            Source::CratesIo(c) => SourceModel::CratesIo(c@),
            Source::Git { url, rev, ident } => SourceModel::Git {
                url: url@,
                rev: rev@,
                ident: ident@,
            },
        }
    }
}

/// The first `rev` query parameter, if any.
pub open spec fn rev_param(q: Seq<(Seq<char>, Seq<char>)>) -> Option<Seq<char>>
    decreases q.len(),
{
    if q.len() == 0 {
        None
    } else if q[0].0 == "rev"@ {
        Some(q[0].1)
    } else {
        rev_param(q.skip(1))
    }
}

/// The git source derived from a parsed URL: `None` when the `rev` parameter
/// is absent or shorter than seven characters, or the URL has no host;
/// otherwise the canonical URL, the revision truncated to its first seven
/// characters, and the identity token.
pub open spec fn git_source_model(v: UrlPartsModel) -> Option<SourceModel> {
    match rev_param(v.query) {
        None => None,
        Some(rev) => if rev.len() < 7 {
            None
        } else if v.host is None {
            None
        } else {
            Some(
                SourceModel::Git {
                    url: canonical_url_model(v),
                    rev: rev.take(7),
                    ident: ident_model(v),
                },
            )
        },
    }
}

/// Looks for the first `rev` query parameter; its index when present.
fn find_rev(query: &Vec<(String, String)>) -> (r: Option<usize>)
    ensures
        ({
            let q = query@.map_values(|p: (String, String)| (p.0@, p.1@));
            match r {
                Some(i) => i < query@.len() && rev_param(q) == Some(q[i as int].1),
                None => rev_param(q) is None,
            }
        }),
{
    let ghost q = query@.map_values(|p: (String, String)| (p.0@, p.1@));
    let n = query.len();
    let mut i: usize = 0;
    proof {
        assert(q.skip(0) =~= q);
    }
    while i < n
        invariant
            n == query@.len(),
            i <= n,
            q == query@.map_values(|p: (String, String)| (p.0@, p.1@)),
            rev_param(q) == rev_param(q.skip(i as int)),
        decreases n - i,
    {
        let pair = &query[i];
        proof {
            assert(q.skip(i as int)[0] == q[i as int]);
        }
        if crate::text::str_eq(pair.0.as_str(), "rev") {
            return Some(i);
        }
        proof {
            assert(q.skip(i as int).skip(1) =~= q.skip(i as int + 1));
        }
        i = i + 1;
    }
    proof {
        assert(q.skip(n as int).len() == 0);
    }
    None
}

impl Source {
    /// Builds the git source for an already-parsed URL. The revision must
    /// stand in the query as `rev`, at least seven characters long; only its
    /// first seven characters enter the identity. A fragment, if any was in
    /// the URL, plays no part.
    pub fn from_git_parts(parts: &UrlParts) -> (r: Result<Source, MirrorError>)
        ensures
            r is Ok <==> git_source_model(parts@) is Some,
            match r {
                Ok(s) => git_source_model(parts@) == Some(s@),
                Err(e) => match rev_param(parts@.query) {
                    None => e is MissingRevision,
                    Some(rev) => if rev.len() < 7 {
                        e is ShortRevision
                    } else {
                        e is MissingHost
                    },
                },
            },
    {
        let rev: &String = match find_rev(&parts.query) {
            Some(i) => &parts.query[i].1,
            None => {
                return Err(MirrorError::MissingRevision);
            },
        };
        let rev_len = rev.as_str().unicode_len();
        if rev_len < 7 {
            return Err(MirrorError::ShortRevision);
        }
        let short = rev.as_str().substring_char(0, 7).to_owned();
        proof {
            assert(short@ =~= rev@.take(7));
        }
        match canonicalize_git_url(parts) {
            Ok(c) => Ok(Source::Git { url: c.url, rev: short, ident: c.ident }),
            Err(e) => Err(e),
        }
    }

    /// Parses and canonicalizes a git URL text, as `from_git_parts` does for
    /// the parsed form; a text the URL parser rejects is an input error.
    pub fn from_git_url(url: &str) -> (r: Result<Source, MirrorError>)
        ensures
            match url_parse_of(url@) {
                None => r matches Err(e) && e is InvalidUrl,
                Some(v) => match r {
                    Ok(s) => git_source_model(v) == Some(s@),
                    Err(e) => git_source_model(v) is None && (match rev_param(v.query) {
                        None => e is MissingRevision,
                        Some(rev) => if rev.len() < 7 {
                            e is ShortRevision
                        } else {
                            e is MissingHost
                        },
                    }),
                },
            },
            r is Ok <==> (url_parse_of(url@) matches Some(v) && git_source_model(v) is Some),
    {
        match parse_url(url) {
            None => Err(MirrorError::InvalidUrl),
            Some(parts) => Source::from_git_parts(&parts),
        }
    }

    /// Whether this source is a pinned git repository.
    pub fn is_git(&self) -> (r: bool)
        ensures
            r == (self@ is Git),
    {
        match self {
            Source::CratesIo(_) => false,
            Source::Git { .. } => true,
        }
    }

    /// A copy equal to this source.
    pub fn duplicate(&self) -> (r: Source)
        ensures
            r == *self,
    {
        match self {
            Source::CratesIo(c) => Source::CratesIo(c.clone()),
            Source::Git { url, rev, ident } => Source::Git {
                url: url.clone(),
                rev: rev.clone(),
                ident: ident.clone(),
            },
        }
    }
}

// ------------------------------------------------------------------
// Ordering of sources
// ------------------------------------------------------------------

/// Total order on sources: registry sources by checksum, before git sources,
/// which go by the (url, rev, ident) triple.
pub open spec fn source_le(a: SourceModel, b: SourceModel) -> bool {
    match (a, b) {
        (SourceModel::CratesIo(x), SourceModel::CratesIo(y)) => lex_le(x, y),
        (SourceModel::CratesIo(_), SourceModel::Git { .. }) => true,
        (SourceModel::Git { .. }, SourceModel::CratesIo(_)) => false,
        (
            SourceModel::Git { url: u1, rev: r1, ident: i1 },
            SourceModel::Git { url: u2, rev: r2, ident: i2 },
        ) => if u1 != u2 {
            lex_le(u1, u2)
        } else if r1 != r2 {
            lex_le(r1, r2)
        } else {
            lex_le(i1, i2)
        },
    }
}

pub open spec fn source_lt(a: SourceModel, b: SourceModel) -> bool {
    source_le(a, b) && a != b
}

pub proof fn source_le_total(a: SourceModel, b: SourceModel)
    ensures
        source_le(a, b) || source_le(b, a),
{
    match (a, b) {
        (SourceModel::CratesIo(x), SourceModel::CratesIo(y)) => lex_le_total(x, y),
        (
            SourceModel::Git { url: u1, rev: r1, ident: i1 },
            SourceModel::Git { url: u2, rev: r2, ident: i2 },
        ) => {
            lex_le_total(u1, u2);
            lex_le_total(r1, r2);
            lex_le_total(i1, i2);
        },
        _ => {},
    }
}

pub proof fn source_le_antisym(a: SourceModel, b: SourceModel)
    requires
        source_le(a, b),
        source_le(b, a),
    ensures
        a == b,
{
    match (a, b) {
        (SourceModel::CratesIo(x), SourceModel::CratesIo(y)) => {
            lex_le_antisym(x, y);
        },
        (
            SourceModel::Git { url: u1, rev: r1, ident: i1 },
            SourceModel::Git { url: u2, rev: r2, ident: i2 },
        ) => {
            if u1 != u2 {
                lex_le_antisym(u1, u2);
            } else if r1 != r2 {
                lex_le_antisym(r1, r2);
            } else {
                lex_le_antisym(i1, i2);
            }
        },
        _ => {},
    }
}

pub proof fn source_le_trans(a: SourceModel, b: SourceModel, c: SourceModel)
    ensures
        source_le(a, b) && source_le(b, c) ==> source_le(a, c),
{
    if source_le(a, b) && source_le(b, c) {
        match (a, b, c) {
            (SourceModel::CratesIo(x), SourceModel::CratesIo(y), SourceModel::CratesIo(z)) => {
                lex_le_trans(x, y, z);
            },
            (
                SourceModel::Git { url: u1, rev: r1, ident: i1 },
                SourceModel::Git { url: u2, rev: r2, ident: i2 },
                SourceModel::Git { url: u3, rev: r3, ident: i3 },
            ) => {
                if u1 != u2 && u2 != u3 {
                    lex_le_trans(u1, u2, u3);
                    if u1 == u3 {
                        lex_le_antisym(u1, u2);
                    }
                } else if u1 == u2 && u2 == u3 {
                    if r1 != r2 && r2 != r3 {
                        lex_le_trans(r1, r2, r3);
                        if r1 == r3 {
                            lex_le_antisym(r1, r2);
                        }
                    } else if r1 == r2 && r2 == r3 {
                        lex_le_trans(i1, i2, i3);
                    }
                }
            },
            _ => {},
        }
    }
}

/// Decides `source_le` on two sources.
pub fn source_le_exec(a: &Source, b: &Source) -> (r: bool)
    ensures
        r == source_le(a@, b@),
{
    match (a, b) {
        (Source::CratesIo(x), Source::CratesIo(y)) => str_lex_le(x.as_str(), y.as_str()),
        (Source::CratesIo(_), Source::Git { .. }) => true,
        (Source::Git { .. }, Source::CratesIo(_)) => false,
        (
            Source::Git { url: u1, rev: r1, ident: i1 },
            Source::Git { url: u2, rev: r2, ident: i2 },
        ) => {
            if !crate::text::str_eq(u1.as_str(), u2.as_str()) {
                str_lex_le(u1.as_str(), u2.as_str())
            } else if !crate::text::str_eq(r1.as_str(), r2.as_str()) {
                str_lex_le(r1.as_str(), r2.as_str())
            } else {
                str_lex_le(i1.as_str(), i2.as_str())
            }
        },
    }
}

/// Whether two sources are the same.
pub fn source_eq_exec(a: &Source, b: &Source) -> (r: bool)
    ensures
        r == (a@ == b@),
{
    match (a, b) {
        (Source::CratesIo(x), Source::CratesIo(y)) => crate::text::str_eq(x.as_str(), y.as_str()),
        (
            Source::Git { url: u1, rev: r1, ident: i1 },
            Source::Git { url: u2, rev: r2, ident: i2 },
        ) => {
            let r = crate::text::str_eq(u1.as_str(), u2.as_str()) && crate::text::str_eq(
                r1.as_str(),
                r2.as_str(),
            ) && crate::text::str_eq(i1.as_str(), i2.as_str());
            r
        },
        _ => false,
    }
}

// ------------------------------------------------------------------
// Dependencies
// ------------------------------------------------------------------

/// A dependency of the lock file: a name, an opaque version, and a source.
pub struct Krate {
    pub name: String,
    pub version: String,
    pub source: Source,
}

/// The mathematical shape of a dependency.
pub struct KrateModel {
    pub name: Seq<char>,
    pub version: Seq<char>,
    pub source: SourceModel,
}

impl View for Krate {
    type V = KrateModel;

    open spec fn view(&self) -> KrateModel {
        KrateModel { name: self.name@, version: self.version@, source: self.source@ }
    }
}

/// The remote storage key: the checksum for a registry source,
/// `{ident}-{rev}` for a git source. Unique per distinct source and stable
/// across runs.
pub open spec fn cloud_id_model(k: KrateModel) -> Seq<char> {
    match k.source {
        SourceModel::CratesIo(c) => c,
        SourceModel::Git { url: _, rev, ident } => ident + "-"@ + rev,
    }
}

/// The local display name: `{name}-{version}.crate` for a registry source,
/// the identity token alone for a git source. Not a dedup key: revisions of
/// one repository collide here on purpose.
pub open spec fn local_id_model(k: KrateModel) -> Seq<char> {
    match k.source {
        SourceModel::CratesIo(_) => k.name + "-"@ + k.version + ".crate"@,
        SourceModel::Git { url: _, rev: _, ident } => ident,
    }
}

impl Krate {
    /// The remote storage key of this dependency.
    pub fn cloud_id(&self) -> (r: CloudId<'_>)
        ensures
            r.inner == self,
    {
        CloudId { inner: self }
    }

    /// The local display name of this dependency.
    pub fn local_id(&self) -> (r: LocalId<'_>)
        ensures
            r.inner == self,
    {
        LocalId { inner: self }
    }

    /// A copy equal to this dependency.
    pub fn duplicate(&self) -> (r: Krate)
        ensures
            r == *self,
    {
        Krate {
            name: self.name.clone(),
            version: self.version.clone(),
            source: self.source.duplicate(),
        }
    }

    /// `{name}-{version}(crates.io)` or `{name}-{version}(git)`.
    pub fn describe(&self) -> (r: String)
        ensures
            r@ == self@.name + "-"@ + self@.version + (match self@.source {
                SourceModel::CratesIo(_) => "(crates.io)"@,
                SourceModel::Git { .. } => "(git)"@,
            }),
    {
        let tag: &str = match &self.source {
            Source::CratesIo(_) => "(crates.io)",
            Source::Git { .. } => "(git)",
        };
        self.name.clone().concat("-").concat(self.version.as_str()).concat(tag)
    }
}

impl PartialEq for Krate {
    /// Source alone decides: names and versions play no part.
    fn eq(&self, other: &Krate) -> (r: bool) {
        source_eq_exec(&self.source, &other.source)
    }
}

impl vstd::std_specs::cmp::PartialEqSpecImpl for Krate {
    open spec fn obeys_eq_spec() -> bool {
        true
    }

    open spec fn eq_spec(&self, other: &Krate) -> bool {
        self@.source == other@.source
    }
}

impl PartialOrd for Krate {
    /// Source alone decides, as with equality.
    fn partial_cmp(&self, other: &Krate) -> (r: Option<core::cmp::Ordering>) {
        if source_eq_exec(&self.source, &other.source) {
            Some(core::cmp::Ordering::Equal)
        } else if source_le_exec(&self.source, &other.source) {
            Some(core::cmp::Ordering::Less)
        } else {
            Some(core::cmp::Ordering::Greater)
        }
    }
}

impl vstd::std_specs::cmp::PartialOrdSpecImpl for Krate {
    open spec fn obeys_partial_cmp_spec() -> bool {
        true
    }

    open spec fn partial_cmp_spec(&self, other: &Krate) -> Option<core::cmp::Ordering> {
        if self@.source == other@.source {
            Some(core::cmp::Ordering::Equal)
        } else if source_le(self@.source, other@.source) {
            Some(core::cmp::Ordering::Less)
        } else {
            Some(core::cmp::Ordering::Greater)
        }
    }
}

/// The remote storage key of a dependency, renderable as text.
pub struct CloudId<'a> {
    pub inner: &'a Krate,
}

impl<'a> CloudId<'a> {
    /// The key as text.
    pub fn to_text(&self) -> (r: String)
        ensures
            r@ == cloud_id_model(self.inner@),
    {
        match &self.inner.source {
            Source::CratesIo(c) => c.clone(),
            Source::Git { url: _, rev, ident } => ident.clone().concat("-").concat(rev.as_str()),
        }
    }
}

/// The local display name of a dependency, renderable as text.
pub struct LocalId<'a> {
    pub inner: &'a Krate,
}

impl<'a> LocalId<'a> {
    /// The name as text.
    pub fn to_text(&self) -> (r: String)
        ensures
            r@ == local_id_model(self.inner@),
    {
        match &self.inner.source {
            Source::CratesIo(_) => self.inner.name.clone().concat("-").concat(
                self.inner.version.as_str(),
            ).concat(".crate"),
            Source::Git { url: _, rev: _, ident } => ident.clone(),
        }
    }
}

} // verus!
