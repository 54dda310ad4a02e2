//! The mirror synchronization engine.
//!
//! Two independent operations over abstract collaborators: a staleness-gated
//! refresh of the registry index snapshot, and the locked-crate sync that
//! diffs the desired dependencies against the keys the store already holds,
//! deduplicates equal sources, and transfers the gap one item at a time,
//! each item's failure isolated from the others.

use vstd::prelude::*;
use vstd::string::*;

use crate::giturl::{canonicalize_git_url, parse_url, url_parse_of};
use crate::krate::{
    cloud_id_model, source_le_exec, source_le_total, source_le_trans, source_lt, source_eq_exec,
    Krate, KrateModel, Source, SourceModel,
};
use crate::lock::krates_model;
use crate::MirrorError;

verus! {

// ------------------------------------------------------------------
// Collaborators, held only as capabilities
// ------------------------------------------------------------------

/// An object store holding mirrored dependencies under their cloud ids.
/// Implementations live outside; nothing is assumed of their behaviour.
pub trait Backend {
    /// The bytes stored for a dependency.
    fn fetch(&self, krate: &Krate) -> Result<Vec<u8>, MirrorError>;

    /// Stores bytes under the dependency's key; the count written on success.
    fn upload(&self, data: Vec<u8>, krate: &Krate) -> Result<usize, MirrorError>;

    /// Every key currently stored, in any order.
    fn list(&self) -> Result<Vec<String>, MirrorError>;

    /// The last-modified time of the dependency's key, as seconds of the Unix
    /// epoch, `Ok(None)` when the key is absent.
    fn updated(&self, krate: &Krate) -> Result<Option<i64>, MirrorError>;

    /// Establishes the key-namespace root; to be called before any other
    /// call, and not thereafter.
    fn set_prefix(&mut self, prefix: &str);
}

/// Retrieves raw bytes from the public registry. Implementations live
/// outside; nothing is assumed of their behaviour.
pub trait FetchClient {
    /// The package bytes for a dependency.
    fn from_registry(&self, krate: &Krate) -> Result<Vec<u8>, MirrorError>;

    /// A fresh snapshot of the registry index behind the given canonical URL.
    fn registry_index(&self, url: &str) -> Result<Vec<u8>, MirrorError>;
}

/// A bucket and key prefix on a GCS-style store.
pub struct GcsLocation<'a> {
    pub bucket: &'a str,
    pub prefix: &'a str,
}

/// A bucket, region, host and key prefix on an S3-style store.
pub struct S3Location<'a> {
    pub bucket: &'a str,
    pub region: &'a str,
    pub host: &'a str,
    pub prefix: &'a str,
}

/// Where the mirror lives; backend selection is opaque to the engine.
pub enum CloudLocation<'a> {
    Gcs(GcsLocation<'a>),
    S3(S3Location<'a>),
}

/// Everything one invocation works with: the collaborators, the ingested
/// dependency list, and the root working directory.
pub struct Ctx<B: Backend, F: FetchClient> {
    pub client: F,
    pub backend: B,
    pub krates: Vec<Krate>,
    pub root_dir: String,
}

impl<B: Backend, F: FetchClient> Ctx<B, F> {
    /// A context over the given collaborators; the root directory defaults
    /// to the current directory.
    pub fn new(root_dir: Option<String>, backend: B, client: F, krates: Vec<Krate>) -> (r: Self)
        ensures
            r.backend == backend,
            r.client == client,
            r.krates == krates,
            r.root_dir@ == (match root_dir {
                Some(d) => d@,
                None => "."@,
            }),
    {
        let dir = match root_dir {
            Some(d) => d,
            None => String::from_str("."),
        };
        Ctx { client, backend, krates, root_dir: dir }
    }
}

// ------------------------------------------------------------------
// The diff: what is missing from the store
// ------------------------------------------------------------------

pub open spec fn key_views(existing: Seq<String>) -> Seq<Seq<char>> {
    existing.map_values(|s: String| s@)
}

/// Whether a dependency's cloud id is absent from the listed keys.
pub open spec fn missing_from(k: KrateModel, existing: Seq<Seq<char>>) -> bool {
    !existing.contains(cloud_id_model(k))
}

fn contains_key(names: &Vec<String>, cid: &String) -> (r: bool)
    ensures
        r == key_views(names@).contains(cid@),
{
    let n = names.len();
    let mut i: usize = 0;
    while i < n
        invariant
            n == names@.len(),
            i <= n,
            forall|j: int| 0 <= j < i ==> #[trigger] key_views(names@)[j] != cid@,
        decreases n - i,
    {
        if names[i] == *cid {
            proof {
                assert(key_views(names@)[i as int] == cid@);
            }
            return true;
        }
        proof {
            assert(key_views(names@)[i as int] == names@[i as int]@);
        }
        i = i + 1;
    }
    proof {
        if key_views(names@).contains(cid@) {
            let j = choose|j: int| 0 <= j < key_views(names@).len() && key_views(names@)[j]
                == cid@;
            assert(key_views(names@)[j] != cid@);
        }
    }
    false
}

/// Whether a dependency with exactly this shape stands somewhere in `s`.
pub open spec fn appears_in(k: KrateModel, s: Seq<Krate>) -> bool {
    exists|j: int| 0 <= j < s.len() && #[trigger] s[j]@ == k
}

/// Whether some dependency in `s` has this source.
pub open spec fn source_appears_in(src: SourceModel, s: Seq<Krate>) -> bool {
    exists|i: int| 0 <= i < s.len() && #[trigger] s[i]@.source == src
}

/// The dependencies whose cloud id the store does not hold, in input order.
pub fn compute_missing(krates: &Vec<Krate>, existing: &Vec<String>) -> (r: Vec<Krate>)
    ensures
        forall|i: int|
            0 <= i < r@.len() ==> missing_from(#[trigger] r@[i]@, key_views(existing@)),
        forall|i: int| 0 <= i < r@.len() ==> appears_in(#[trigger] r@[i]@, krates@),
        forall|j: int|
            0 <= j < krates@.len() && missing_from(#[trigger] krates@[j]@, key_views(existing@))
                ==> appears_in(krates@[j]@, r@),
{
    let n = krates.len();
    let mut out: Vec<Krate> = Vec::new();
    let mut j: usize = 0;
    while j < n
        invariant
            n == krates@.len(),
            j <= n,
            forall|i: int|
                0 <= i < out@.len() ==> missing_from(#[trigger] out@[i]@, key_views(existing@)),
            forall|i: int| 0 <= i < out@.len() ==> appears_in(#[trigger] out@[i]@, krates@),
            forall|jj: int|
                0 <= jj < j && missing_from(#[trigger] krates@[jj]@, key_views(existing@))
                    ==> appears_in(krates@[jj]@, out@),
        decreases n - j,
    {
        let k = &krates[j];
        let cid = k.cloud_id().to_text();
        let ghost out_before = out@;
        if !contains_key(existing, &cid) {
            out.push(k.duplicate());
            proof {
                assert(out@[out@.len() - 1]@ == krates@[j as int]@);
                assert(forall|i: int|
                    0 <= i < out_before.len() ==> #[trigger] out@[i] == out_before[i]);
                assert forall|i: int| 0 <= i < out@.len() implies appears_in(
                    #[trigger] out@[i]@,
                    krates@,
                ) by {
                    if i < out_before.len() {
                        assert(appears_in(out_before[i]@, krates@));
                    } else {
                        assert(krates@[j as int]@ == out@[i]@);
                    }
                }
                assert forall|jj: int|
                    0 <= jj < j + 1 && missing_from(
                        #[trigger] krates@[jj]@,
                        key_views(existing@),
                    ) implies appears_in(krates@[jj]@, out@) by {
                    if jj == j {
                        assert(out@[out@.len() - 1]@ == krates@[jj]@);
                    } else {
                        let ii = choose|ii: int|
                            0 <= ii < out_before.len() && #[trigger] out_before[ii]@
                                == krates@[jj]@;
                        assert(out@[ii]@ == krates@[jj]@);
                    }
                }
            }
        } else {
            proof {
                assert(key_views(existing@).contains(cloud_id_model(krates@[j as int]@)));
            }
        }
        j = j + 1;
    }
    out
}

// ------------------------------------------------------------------
// Dedup by source, via a sorted insert
// ------------------------------------------------------------------

/// Strictly ascending by source: no two entries share a source.
pub open spec fn strictly_sorted(s: Seq<KrateModel>) -> bool {
    forall|i: int, j: int|
        0 <= i < j < s.len() ==> source_lt(#[trigger] s[i].source, #[trigger] s[j].source)
}

/// The first place whose entry is not below `k` by source.
fn find_insert_pos(out: &Vec<Krate>, k: &Krate) -> (pos: usize)
    ensures
        pos <= out@.len(),
        forall|i: int| 0 <= i < pos ==> source_lt(#[trigger] out@[i]@.source, k@.source),
        pos < out@.len() ==> !source_lt(out@[pos as int]@.source, k@.source),
{
    let n = out.len();
    let mut pos: usize = 0;
    while pos < n
        invariant
            n == out@.len(),
            pos <= n,
            forall|i: int| 0 <= i < pos ==> source_lt(#[trigger] out@[i]@.source, k@.source),
        decreases n - pos,
    {
        let le = source_le_exec(&out[pos].source, &k.source);
        let eq = source_eq_exec(&out[pos].source, &k.source);
        if !(le && !eq) {
            return pos;
        }
        pos = pos + 1;
    }
    pos
}

/// Inserts a dependency at its sorted place, unless its source is already
/// present; every entry already there stays.
fn insert_sorted(out: &mut Vec<Krate>, k: Krate)
    requires
        strictly_sorted(krates_model(old(out)@)),
    ensures
        strictly_sorted(krates_model(final(out)@)),
        forall|i: int|
            0 <= i < final(out)@.len() ==> #[trigger] final(out)@[i]@ == k@ || appears_in(
                final(out)@[i]@,
                old(out)@,
            ),
        source_appears_in(k@.source, final(out)@),
        forall|j: int|
            0 <= j < old(out)@.len() ==> appears_in(#[trigger] old(out)@[j]@, final(out)@),
{
    let pos = find_insert_pos(out, &k);
    if pos < out.len() {
        if source_eq_exec(&out[pos].source, &k.source) {
            proof {
                assert(out@[pos as int]@.source == k@.source);
                assert(source_appears_in(k@.source, out@));
                assert forall|j: int| 0 <= j < old(out)@.len() implies appears_in(
                    #[trigger] old(out)@[j]@,
                    out@,
                ) by {
                    assert(out@[j]@ == old(out)@[j]@);
                }
                assert forall|i: int| 0 <= i < out@.len() implies appears_in(
                    #[trigger] out@[i]@,
                    old(out)@,
                ) by {
                    assert(old(out)@[i]@ == out@[i]@);
                }
            }
            return ;
        }
    }
    proof {
        let m = krates_model(out@);
        if pos < out@.len() {
            assert(m[pos as int].source == out@[pos as int]@.source);
            assert(!source_lt(m[pos as int].source, k@.source));
            source_le_total(m[pos as int].source, k@.source);
            assert(source_lt(k@.source, m[pos as int].source));
        }
        assert(forall|i: int|
            0 <= i < pos ==> source_lt(#[trigger] m[i].source, k@.source));
    }
    let ghost before = out@;
    out.insert(pos, k);
    proof {
        let m0 = krates_model(before);
        let m1 = krates_model(out@);
        assert(out@ == before.insert(pos as int, k));
        assert forall|i: int| 0 <= i < m1.len() implies m1[i] == (if i < pos {
            m0[i]
        } else if i == pos {
            k@
        } else {
            m0[i - 1]
        }) by {
            assert(out@[i] == (if i < pos {
                before[i]
            } else if i == pos {
                k
            } else {
                before[i - 1]
            }));
        }
        assert forall|i: int, j: int| 0 <= i < j < m1.len() implies source_lt(
            #[trigger] m1[i].source,
            #[trigger] m1[j].source,
        ) by {
            if j < pos {
            } else if i < pos && j == pos {
                assert(source_lt(m0[i].source, k@.source));
            } else if i < pos && j > pos {
                assert(source_lt(m0[i].source, m0[j - 1].source)) by {
                    if i < pos - 1 || pos <= j - 1 {
                    }
                    if i == j - 1 {
                        assert(source_lt(m0[i].source, k@.source));
                        assert(source_lt(k@.source, m0[pos as int].source));
                    }
                }
                if i == j - 1 {
                    source_le_trans(m0[i].source, k@.source, m0[j - 1].source);
                }
            } else if i == pos {
                assert(source_lt(k@.source, m0[pos as int].source));
                if j - 1 > pos {
                    assert(source_lt(m0[pos as int].source, m0[j - 1].source));
                    source_le_trans(k@.source, m0[pos as int].source, m0[j - 1].source);
                }
            } else {
                assert(source_lt(m0[i - 1].source, m0[j - 1].source));
            }
        }
        assert(final(out)@[pos as int]@.source == k@.source);
        assert(source_appears_in(k@.source, final(out)@));
        assert forall|j: int| 0 <= j < before.len() implies appears_in(
            #[trigger] before[j]@,
            final(out)@,
        ) by {
            if j < pos {
                assert(final(out)@[j]@ == before[j]@);
            } else {
                assert(final(out)@[j + 1]@ == before[j]@);
            }
        }
        assert forall|i: int| 0 <= i < final(out)@.len() implies #[trigger] final(out)@[i]@ == k@
            || appears_in(final(out)@[i]@, before) by {
            if i < pos {
                assert(before[i]@ == final(out)@[i]@);
            } else if i > pos {
                assert(before[i - 1]@ == final(out)@[i]@);
            }
        }
    }
}

/// Sorts by source and removes duplicate sources: the result is strictly
/// ascending, every entry comes from the input, and every input source is
/// represented exactly once.
pub fn sort_dedup_by_source(v: Vec<Krate>) -> (r: Vec<Krate>)
    ensures
        strictly_sorted(krates_model(r@)),
        forall|i: int| 0 <= i < r@.len() ==> appears_in(#[trigger] r@[i]@, v@),
        forall|j: int| 0 <= j < v@.len() ==> source_appears_in(#[trigger] v@[j]@.source, r@),
{
    let n = v.len();
    let mut out: Vec<Krate> = Vec::new();
    let mut idx: usize = 0;
    while idx < n
        invariant
            n == v@.len(),
            idx <= n,
            strictly_sorted(krates_model(out@)),
            forall|i: int| 0 <= i < out@.len() ==> appears_in(#[trigger] out@[i]@, v@),
            forall|jj: int|
                0 <= jj < idx ==> source_appears_in(#[trigger] v@[jj]@.source, out@),
        decreases n - idx,
    {
        let ghost out_before = out@;
        let picked = v[idx].duplicate();
        proof {
            assert(picked@ == v@[idx as int]@);
        }
        insert_sorted(&mut out, picked);
        proof {
            assert forall|i: int| 0 <= i < out@.len() implies appears_in(
                #[trigger] out@[i]@,
                v@,
            ) by {
                if out@[i]@ == picked@ {
                    assert(v@[idx as int]@ == out@[i]@);
                } else {
                    let jo = choose|jo: int|
                        0 <= jo < out_before.len() && #[trigger] out_before[jo]@ == out@[i]@;
                    assert(appears_in(out_before[jo]@, v@));
                }
            }
            assert forall|jj: int| 0 <= jj < idx + 1 implies source_appears_in(
                #[trigger] v@[jj]@.source,
                out@,
            ) by {
                if jj == idx {
                    assert(source_appears_in(picked@.source, out@));
                } else {
                    let io = choose|io: int|
                        0 <= io < out_before.len() && #[trigger] out_before[io]@.source
                            == v@[jj]@.source;
                    assert(appears_in(out_before[io]@, out@));
                    let i2 = choose|i2: int|
                        0 <= i2 < out@.len() && #[trigger] out@[i2]@ == out_before[io]@;
                    assert(out@[i2]@.source == v@[jj]@.source);
                }
            }
        }
        idx = idx + 1;
    }
    out
}

/// The transfer plan: the dependencies whose key the store lacks, one per
/// distinct source, in ascending source order. Nothing already present is
/// planned again, and no source is planned twice.
pub fn plan_mirror(krates: &Vec<Krate>, existing: &Vec<String>) -> (plan: Vec<Krate>)
    ensures
        strictly_sorted(krates_model(plan@)),
        forall|i: int|
            0 <= i < plan@.len() ==> missing_from(#[trigger] plan@[i]@, key_views(existing@)),
        forall|i: int, j: int|
            0 <= i < j < plan@.len() ==> #[trigger] plan@[i]@.source != #[trigger] plan@[j]@.source,
        forall|i: int| 0 <= i < plan@.len() ==> appears_in(#[trigger] plan@[i]@, krates@),
        forall|j: int|
            0 <= j < krates@.len() && missing_from(#[trigger] krates@[j]@, key_views(existing@))
                ==> source_appears_in(krates@[j]@.source, plan@),
{
    let missing = compute_missing(krates, existing);
    let plan = sort_dedup_by_source(missing);
    proof {
        assert forall|i: int| 0 <= i < plan@.len() implies missing_from(
            #[trigger] plan@[i]@,
            key_views(existing@),
        ) && appears_in(plan@[i]@, krates@) by {
            let jm = choose|jm: int|
                0 <= jm < missing@.len() && #[trigger] missing@[jm]@ == plan@[i]@;
            assert(missing_from(missing@[jm]@, key_views(existing@)));
            assert(appears_in(missing@[jm]@, krates@));
        }
        assert forall|i: int, j: int| 0 <= i < j < plan@.len() implies #[trigger] plan@[i]@.source
            != #[trigger] plan@[j]@.source by {
            assert(source_lt(krates_model(plan@)[i].source, krates_model(plan@)[j].source));
        }
        assert forall|j: int|
            0 <= j < krates@.len() && missing_from(
                #[trigger] krates@[j]@,
                key_views(existing@),
            ) implies source_appears_in(krates@[j]@.source, plan@) by {
            assert(appears_in(krates@[j]@, missing@));
            let im = choose|im: int|
                0 <= im < missing@.len() && #[trigger] missing@[im]@ == krates@[j]@;
            assert(source_appears_in(missing@[im]@.source, plan@));
        }
    }
    plan
}

// ------------------------------------------------------------------
// The two synchronization operations
// ------------------------------------------------------------------

/// What a locked-crate sync did: how many transfers were planned, and how
/// they went. Failures are isolated per item and never fail the call.
pub struct SyncSummary {
    pub planned: usize,
    pub uploaded: usize,
    pub failed: usize,
}

/// One item's transfer: fetch, and only on fetch success upload. A failure
/// of either step is this item's alone.
pub fn transfer_one<B: Backend, F: FetchClient>(client: &F, backend: &B, krate: &Krate) -> (ok:
    bool)
{
    match client.from_registry(krate) {
        Err(_) => false,
        Ok(data) => match backend.upload(data, krate) {
            Ok(_) => true,
            Err(_) => false,
        },
    }
}

/// Mirrors every ingested dependency the store does not hold yet: lists the
/// store once, plans the gap (each distinct source once, nothing already
/// present), and transfers the plan item by item. Per-item failures are
/// counted, not propagated: the call fails only when the store cannot be
/// listed at all.
pub fn locked_crates<B: Backend, F: FetchClient>(ctx: &Ctx<B, F>) -> (r: Result<
    SyncSummary,
    MirrorError,
>)
    ensures
        r matches Ok(s) ==> s.planned == s.uploaded + s.failed,
{
    let names = match ctx.backend.list() {
        Ok(n) => n,
        Err(e) => {
            return Err(e);
        },
    };
    let plan = plan_mirror(&ctx.krates, &names);
    let total = plan.len();
    if total == 0 {
        return Ok(SyncSummary { planned: 0, uploaded: 0, failed: 0 });
    }
    let mut uploaded: usize = 0;
    let mut failed: usize = 0;
    let mut i: usize = 0;
    while i < total
        invariant
            total == plan@.len(),
            i <= total,
            uploaded + failed == i,
        decreases total - i,
    {
        if transfer_one(&ctx.client, &ctx.backend, &plan[i]) {
            uploaded = uploaded + 1;
        } else {
            failed = failed + 1;
        }
        i = i + 1;
    }
    Ok(SyncSummary { planned: total, uploaded, failed })
}

/// Relies on `std::time::SystemTime::now` for the wall clock, as seconds of
/// the Unix epoch; a clock before the epoch gives a negative count, a clock
/// beyond the `i64` range is clamped. Nothing is assumed of the value.
#[verifier::external_body]
fn now_unix() -> i64 {
    match std::time::SystemTime::now().duration_since(std::time::UNIX_EPOCH) {
        Ok(d) => d.as_secs().min(i64::MAX as u64) as i64,
        Err(e) => -(e.duration().as_secs().min(i64::MAX as u64) as i64),
    }
}

/// Whether the index snapshot is to be refreshed: only a readable, present
/// timestamp younger than the freshness window skips the refresh; an absent
/// key or a backend error counts as stale.
pub open spec fn spec_should_refresh(
    updated: Result<Option<i64>, MirrorError>,
    now: int,
    max_stale_secs: int,
) -> bool {
    !(updated matches Ok(Some(t)) && now - t < max_stale_secs)
}

/// Decides `spec_should_refresh` on a timestamp read.
pub fn should_refresh(updated: &Result<Option<i64>, MirrorError>, now: i64, max_stale_secs: u64) -> (r:
    bool)
    ensures
        r == spec_should_refresh(*updated, now as int, max_stale_secs as int),
{
    match updated {
        Ok(opt) => match opt {
            Some(t) => {
                let diff: i128 = (now as i128) - (*t as i128);
                !(diff < (max_stale_secs as i128))
            },
            None => true,
        },
        Err(_) => true,
    }
}

/// The well-known URL of the public registry index.
pub open spec fn index_locator() -> Seq<char> {
    "git+https://github.com/rust-lang/crates.io-index.git"@
}

/// What a registry index refresh did.
pub enum IndexOutcome {
    /// The stored snapshot was fresh: its timestamp, read at `now`, lies
    /// within the freshness window; nothing was fetched or uploaded.
    Fresh { last_updated: i64, now: i64 },
    /// A new snapshot was uploaded; the byte count the backend reported.
    Refreshed(usize),
}

/// Refreshes the stored registry index snapshot unless it is fresh enough.
/// The index is a synthetic dependency under a fixed identity derived from
/// its well-known URL, with an empty revision. A fresh timestamp within
/// `max_stale_secs` skips the refresh; an unreadable or absent timestamp
/// counts as stale, and the snapshot is then fetched and uploaded,
/// overwriting any previous one.
pub fn registry_index<B: Backend, F: FetchClient>(ctx: &Ctx<B, F>, max_stale_secs: u64) -> (r:
    Result<IndexOutcome, MirrorError>)
    ensures
        url_parse_of(index_locator()) is None ==> (r matches Err(e) && e is InvalidUrl),
        (url_parse_of(index_locator()) matches Some(v) && v.host is None) ==> (r matches Err(e)
            && e is MissingHost),
        r matches Ok(IndexOutcome::Fresh { last_updated, now }) ==> !spec_should_refresh(
            Ok(Some(last_updated)),
            now as int,
            max_stale_secs as int,
        ),
{
    let parts = match parse_url("git+https://github.com/rust-lang/crates.io-index.git") {
        Some(p) => p,
        None => {
            return Err(MirrorError::InvalidUrl);
        },
    };
    let canon = match canonicalize_git_url(&parts) {
        Ok(c) => c,
        Err(e) => {
            return Err(e);
        },
    };
    let index_url = canon.url.clone();
    let krate = Krate {
        name: String::from_str("crates.io-index"),
        version: String::from_str("1.0.0"),
        source: Source::Git { url: canon.url, rev: String::new(), ident: canon.ident },
    };
    let now = now_unix();
    match ctx.backend.updated(&krate) {
        Ok(Some(t)) => {
            if !should_refresh(&Ok(Some(t)), now, max_stale_secs) {
                return Ok(IndexOutcome::Fresh { last_updated: t, now });
            }
        },
        _ => {},
    }
    let index = match ctx.client.registry_index(index_url.as_str()) {
        Ok(b) => b,
        Err(e) => {
            return Err(e);
        },
    };
    match ctx.backend.upload(index, &krate) {
        Ok(n) => Ok(IndexOutcome::Refreshed(n)),
        Err(e) => Err(e),
    }
}

} // verus!
