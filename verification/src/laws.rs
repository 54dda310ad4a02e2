//! The engine's load-bearing guarantees, written out and proved: what
//! ingestion yields for each record shape, that derived git identities do
//! not depend on the spelling of the URL, that a dependency's identity is
//! its source alone, and when the index refresh is skipped.

use vstd::prelude::*;

use crate::giturl::{canonical_path, host_of, strip_dot_git, strip_trailing_slashes, UrlPartsModel};
use crate::krate::{git_source_model, rev_param, source_le, Krate, KrateModel, SourceModel};
use crate::lock::{composite_key, ingest_step, registry_locator, take_meta};
use crate::mirror::spec_should_refresh;
use crate::text::{keysafe_char, keysafe_seq, lower_char, lower_seq};
use crate::MirrorError;

verus! {

/// A registry-locator record carrying its own checksum (the newer schema)
/// yields exactly one registry dependency with that checksum, whatever the
/// metadata mapping holds, and leaves the mapping untouched.
pub proof fn law_registry_inline_checksum(
    p: crate::lock::PackageModel,
    meta: Seq<(Seq<char>, Seq<char>)>,
    c: Seq<char>,
)
    requires
        p.source == Some(registry_locator()),
        p.checksum == Some(c),
    ensures
        ingest_step(p, meta).0 == seq![
            KrateModel { name: p.name, version: p.version, source: SourceModel::CratesIo(c) },
        ],
        ingest_step(p, meta).1 == meta,
{
}

/// A registry-locator record without its own checksum (the older schema)
/// yields a registry dependency if and only if the composite key is present
/// in the metadata mapping, which it consumes; otherwise the record is
/// dropped with nothing else changed and no error.
pub proof fn law_registry_metadata_lookup(
    p: crate::lock::PackageModel,
    meta: Seq<(Seq<char>, Seq<char>)>,
)
    requires
        p.source == Some(registry_locator()),
        p.checksum is None,
    ensures
        match take_meta(meta, composite_key(p.name, p.version)) {
            Some((c, rest)) => ingest_step(p, meta).0 == seq![
                KrateModel { name: p.name, version: p.version, source: SourceModel::CratesIo(c) },
            ] && ingest_step(p, meta).1 == rest,
            None => ingest_step(p, meta).0 == Seq::<KrateModel>::empty() && ingest_step(
                p,
                meta,
            ).1 == meta,
        },
{
    match take_meta(meta, composite_key(p.name, p.version)) {
        Some((c, rest)) => {
            assert(ingest_step(p, meta).0 =~= seq![
                KrateModel { name: p.name, version: p.version, source: SourceModel::CratesIo(c) },
            ]);
        },
        None => {
            assert(ingest_step(p, meta).0 =~= Seq::<KrateModel>::empty());
        },
    }
}

/// A derived git revision is always exactly seven characters, the first
/// seven of whatever the `rev` parameter supplied; a shorter value yields no
/// source at all.
pub proof fn law_rev_is_seven_chars(v: UrlPartsModel)
    ensures
        git_source_model(v) matches Some(s) ==> s matches SourceModel::Git { url: _, rev, ident: _ }
            && rev.len() == 7 && rev == rev_param(v.query).unwrap().take(7),
        rev_param(v.query) matches Some(r0) && r0.len() < 7 ==> git_source_model(v) is None,
        rev_param(v.query) is None ==> git_source_model(v) is None,
{
}

/// Stripping trailing slashes twice is stripping them once.
proof fn strip_slashes_idempotent(p: Seq<char>)
    ensures
        strip_trailing_slashes(strip_trailing_slashes(p)) == strip_trailing_slashes(p),
    decreases p.len(),
{
    if p.len() > 0 && p.last() == '/' {
        strip_slashes_idempotent(p.drop_last());
    }
}

/// A trailing slash plays no part in the canonical path.
pub proof fn law_trailing_slash_ignored(p: Seq<char>)
    ensures
        canonical_path(p + "/"@) == canonical_path(p),
{
    reveal_strlit("/");
    assert((p + "/"@).last() == '/');
    assert((p + "/"@).drop_last() =~= p);
}

/// A trailing `.git` plays no part in the canonical path, for any path
/// whose own slash-stripped form does not already end in `.git`.
pub proof fn law_dot_git_ignored(p: Seq<char>)
    requires
        strip_dot_git(strip_trailing_slashes(p)) == strip_trailing_slashes(p),
    ensures
        canonical_path(p + ".git"@) == canonical_path(p),
{
    reveal_strlit(".git");
    let q = p + ".git"@;
    assert(q.last() == 't');
    assert(strip_trailing_slashes(q) == q);
    assert(q.subrange(q.len() - 4, q.len() as int) =~= ".git"@);
    assert(strip_dot_git(q) =~= p);
    assert(canonical_path(p + ".git"@) == strip_trailing_slashes(p));
    strip_slashes_idempotent(p);
    assert(canonical_path(p) == strip_trailing_slashes(p));
}

/// Lowercasing is idempotent, and the key-safe image of a character depends
/// only on its lowercased form.
proof fn keysafe_follows_lower(a: Seq<char>, b: Seq<char>)
    requires
        lower_seq(a) == lower_seq(b),
    ensures
        keysafe_seq(a) == keysafe_seq(b),
{
    assert(a.len() == lower_seq(a).len());
    assert(b.len() == lower_seq(b).len());
    assert forall|i: int| 0 <= i < a.len() implies #[trigger] keysafe_seq(a)[i] == keysafe_seq(
        b,
    )[i] by {
        assert(lower_seq(a)[i] == lower_char(a[i]));
        assert(lower_seq(b)[i] == lower_char(b[i]));
        assert(lower_char(a[i]) == lower_char(b[i]));
        assert(keysafe_seq(a)[i] == keysafe_char(a[i]));
        assert(keysafe_seq(b)[i] == keysafe_char(b[i]));
    }
    assert(keysafe_seq(a) =~= keysafe_seq(b));
}

/// Two parsed git URLs that agree on the host up to letter case, on the
/// canonical path, and on the revision parameter derive the identical
/// `(ident, rev)` identity, whatever else differs between them.
pub proof fn law_identity_spelling_insensitive(
    v1: UrlPartsModel,
    v2: UrlPartsModel,
    s1: SourceModel,
    s2: SourceModel,
)
    requires
        git_source_model(v1) == Some(s1),
        git_source_model(v2) == Some(s2),
        lower_seq(host_of(v1)) == lower_seq(host_of(v2)),
        canonical_path(v1.path) == canonical_path(v2.path),
        rev_param(v1.query) == rev_param(v2.query),
    ensures
        s1 matches SourceModel::Git { url: _, rev: r1, ident: i1 } ==> (s2 matches SourceModel::Git
            { url: _, rev: r2, ident: i2 } && i1 == i2 && r1 == r2),
{
    let h1 = host_of(v1);
    let h2 = host_of(v2);
    let cp = canonical_path(v1.path);
    assert(h1.len() == h2.len()) by {
        assert(lower_seq(h1).len() == h1.len());
        assert(lower_seq(h2).len() == h2.len());
    }
    assert(lower_seq(h1 + cp) =~= lower_seq(h2 + cp)) by {
        assert forall|i: int| 0 <= i < h1.len() + cp.len() implies #[trigger] lower_seq(
            h1 + cp,
        )[i] == lower_seq(h2 + cp)[i] by {
            if i < h1.len() {
                assert(lower_seq(h1)[i] == lower_char(h1[i]));
                assert(lower_seq(h2)[i] == lower_char(h2[i]));
                assert((h1 + cp)[i] == h1[i]);
                assert((h2 + cp)[i] == h2[i]);
            } else {
                assert((h1 + cp)[i] == cp[i - h1.len()]);
                assert((h2 + cp)[i] == cp[i - h2.len()]);
            }
        }
    }
    keysafe_follows_lower(h1 + cp, h2 + canonical_path(v2.path));
}

/// Two parsed git URLs alike in host (up to letter case) and revision,
/// where the second path only adds a trailing slash, derive the identical
/// `(ident, rev)` identity.
pub proof fn law_trailing_slash_same_identity(
    v1: UrlPartsModel,
    v2: UrlPartsModel,
    s1: SourceModel,
    s2: SourceModel,
)
    requires
        git_source_model(v1) == Some(s1),
        git_source_model(v2) == Some(s2),
        lower_seq(host_of(v1)) == lower_seq(host_of(v2)),
        rev_param(v1.query) == rev_param(v2.query),
        v2.path == v1.path + "/"@,
    ensures
        s1 matches SourceModel::Git { url: _, rev: r1, ident: i1 } ==> (s2 matches SourceModel::Git
            { url: _, rev: r2, ident: i2 } && i1 == i2 && r1 == r2),
{
    law_trailing_slash_ignored(v1.path);
    law_identity_spelling_insensitive(v1, v2, s1, s2);
}

/// Two parsed git URLs alike in host (up to letter case) and revision,
/// where the second path only adds a `.git` suffix, derive the identical
/// `(ident, rev)` identity — for any first path whose slash-stripped form
/// does not already end in `.git` (one such suffix is stripped, not every
/// repetition, so `/bar.git` and `/bar.git.git` stay distinct).
pub proof fn law_dot_git_same_identity(
    v1: UrlPartsModel,
    v2: UrlPartsModel,
    s1: SourceModel,
    s2: SourceModel,
)
    requires
        git_source_model(v1) == Some(s1),
        git_source_model(v2) == Some(s2),
        lower_seq(host_of(v1)) == lower_seq(host_of(v2)),
        rev_param(v1.query) == rev_param(v2.query),
        v2.path == v1.path + ".git"@,
        strip_dot_git(strip_trailing_slashes(v1.path)) == strip_trailing_slashes(v1.path),
    ensures
        s1 matches SourceModel::Git { url: _, rev: r1, ident: i1 } ==> (s2 matches SourceModel::Git
            { url: _, rev: r2, ident: i2 } && i1 == i2 && r1 == r2),
{
    law_dot_git_ignored(v1.path);
    law_identity_spelling_insensitive(v1, v2, s1, s2);
}

/// A dependency's identity is its source alone: the equality the library
/// gives `Krate` holds exactly when the sources agree, names and versions
/// notwithstanding, and the mirroring order likewise compares sources only.
pub proof fn law_identity_by_source(a: Krate, b: Krate)
    ensures
        vstd::std_specs::cmp::PartialEqSpec::eq_spec(&a, &b) == (a@.source == b@.source),
        (vstd::std_specs::cmp::PartialOrdSpec::partial_cmp_spec(&a, &b) == Some(
            core::cmp::Ordering::Equal,
        )) <==> a@.source == b@.source,
        source_le(a@.source, b@.source) == source_le(
            KrateModel { name: a@.name, version: a@.version, source: a@.source }.source,
            KrateModel { name: b@.name, version: b@.version, source: b@.source }.source,
        ),
{
}

/// The index refresh is skipped exactly when a readable, present timestamp
/// is younger than the freshness window; an absent timestamp or a failed
/// read always refreshes.
pub proof fn law_index_freshness(t: i64, now: i64, max_stale_secs: u64, e: MirrorError)
    ensures
        spec_should_refresh(Ok(Some(t)), now as int, max_stale_secs as int) == !(now - t
            < max_stale_secs),
        spec_should_refresh(Ok(None), now as int, max_stale_secs as int),
        spec_should_refresh(Err(e), now as int, max_stale_secs as int),
{
}

} // verus!
