//! Lock-file ingestion: raw package records, in file order, become
//! identified dependencies.
//!
//! Two on-disk schemas are tolerated: the newer one carries each package's
//! checksum on the record itself; the older one keeps checksums in a flat
//! metadata mapping under a composite key, consumed (removed) on use. A
//! record without a source is a local path dependency and is skipped; a
//! record whose source cannot be parsed or canonicalized is skipped alone,
//! never failing the rest.

use vstd::prelude::*;
use vstd::string::*;

use crate::giturl::{parse_url, url_parse_of};
use crate::krate::{git_source_model, Krate, KrateModel, Source, SourceModel};
use crate::text::str_eq;

verus! {

/// A raw package record of the lock file.
pub struct Package {
    pub name: String,
    pub version: String,
    pub source: Option<String>,
    pub checksum: Option<String>,
}

/// The mathematical shape of a raw package record.
pub struct PackageModel {
    pub name: Seq<char>,
    pub version: Seq<char>,
    pub source: Option<Seq<char>>,
    pub checksum: Option<Seq<char>>,
}

impl View for Package {
    type V = PackageModel;

    open spec fn view(&self) -> PackageModel {
        PackageModel {
            name: self.name@,
            version: self.version@,
            source: match self.source {
                Some(s) => Some(s@),
                None => None,
            },
            checksum: match self.checksum {
                Some(c) => Some(c@),
                None => None,
            },
        }
    }
}

/// A parsed lock file: package records in file order, and the legacy flat
/// checksum mapping (empty under the newer schema).
pub struct LockContents {
    pub package: Vec<Package>,
    pub metadata: Vec<(String, String)>,
}

pub open spec fn meta_model(m: Seq<(String, String)>) -> Seq<(Seq<char>, Seq<char>)> {
    m.map_values(|p: (String, String)| (p.0@, p.1@))
}

pub open spec fn pkgs_model(p: Seq<Package>) -> Seq<PackageModel> {
    p.map_values(|q: Package| q@)
}

pub open spec fn krates_model(k: Seq<Krate>) -> Seq<KrateModel> {
    k.map_values(|q: Krate| q@)
}

/// The public registry's locator string, as it stands in lock files.
pub open spec fn registry_locator() -> Seq<char> {
    "registry+https://github.com/rust-lang/crates.io-index"@
}

/// The legacy metadata key under which a record's checksum is stored.
pub open spec fn composite_key(name: Seq<char>, version: Seq<char>) -> Seq<char> {
    "checksum "@ + name + " "@ + version + " ("@ + registry_locator() + ")"@
}

/// Removes the first entry under `key`: the checksum found and the mapping
/// without that entry, or `None` when no entry matches.
pub open spec fn take_meta(meta: Seq<(Seq<char>, Seq<char>)>, key: Seq<char>) -> Option<
    (Seq<char>, Seq<(Seq<char>, Seq<char>)>),
>
    decreases meta.len(),
{
    if meta.len() == 0 {
        None
    } else if meta[0].0 == key {
        Some((meta[0].1, meta.skip(1)))
    } else {
        match take_meta(meta.skip(1), key) {
            None => None,
            Some((c, rest)) => Some((c, seq![meta[0]] + rest)),
        }
    }
}

proof fn take_meta_at(meta: Seq<(Seq<char>, Seq<char>)>, key: Seq<char>, i: int)
    requires
        0 <= i < meta.len(),
        meta[i].0 == key,
        forall|j: int| 0 <= j < i ==> #[trigger] meta[j].0 != key,
    ensures
        take_meta(meta, key) == Some((meta[i].1, meta.remove(i))),
    decreases i,
{
    if i == 0 {
        assert(meta.remove(0) =~= meta.skip(1));
    } else {
        assert(forall|j: int|
            0 <= j < i - 1 ==> #[trigger] meta.skip(1)[j].0 == meta[j + 1].0);
        take_meta_at(meta.skip(1), key, i - 1);
        assert(seq![meta[0]] + meta.skip(1).remove(i - 1) =~= meta.remove(i));
    }
}

proof fn take_meta_none(meta: Seq<(Seq<char>, Seq<char>)>, key: Seq<char>)
    requires
        forall|j: int| 0 <= j < meta.len() ==> #[trigger] meta[j].0 != key,
    ensures
        take_meta(meta, key) is None,
    decreases meta.len(),
{
    if meta.len() > 0 {
        assert(forall|j: int|
            0 <= j < meta.skip(1).len() ==> #[trigger] meta.skip(1)[j].0 == meta[j + 1].0);
        take_meta_none(meta.skip(1), key);
    }
}

/// The fate of one record: the dependencies it yields (none or one) and the
/// metadata mapping it leaves behind.
pub open spec fn ingest_step(p: PackageModel, meta: Seq<(Seq<char>, Seq<char>)>) -> (
    Seq<KrateModel>,
    Seq<(Seq<char>, Seq<char>)>,
) {
    match p.source {
        None => (seq![], meta),
        Some(src) => if src == registry_locator() {
            match p.checksum {
                Some(c) => (
                    seq![
                        KrateModel {
                            name: p.name,
                            version: p.version,
                            source: SourceModel::CratesIo(c),
                        },
                    ],
                    meta,
                ),
                None => match take_meta(meta, composite_key(p.name, p.version)) {
                    Some((c, rest)) => (
                        seq![
                            KrateModel {
                                name: p.name,
                                version: p.version,
                                source: SourceModel::CratesIo(c),
                            },
                        ],
                        rest,
                    ),
                    None => (seq![], meta),
                },
            }
        } else {
            match url_parse_of(src) {
                None => (seq![], meta),
                Some(v) => match git_source_model(v) {
                    None => (seq![], meta),
                    Some(s) => (
                        seq![KrateModel { name: p.name, version: p.version, source: s }],
                        meta,
                    ),
                },
            }
        },
    }
}

/// The dependencies a record list yields, threading the metadata mapping
/// through record after record.
pub open spec fn ingest(pkgs: Seq<PackageModel>, meta: Seq<(Seq<char>, Seq<char>)>) -> Seq<
    KrateModel,
>
    decreases pkgs.len(),
{
    if pkgs.len() == 0 {
        seq![]
    } else {
        let step = ingest_step(pkgs[0], meta);
        step.0 + ingest(pkgs.skip(1), step.1)
    }
}

/// Ingests one record: appends what it yields, consumes what it looked up.
fn ingest_one(p: &Package, meta: &mut Vec<(String, String)>, out: &mut Vec<Krate>)
    ensures
        ({
            let step = ingest_step(p@, meta_model(old(meta)@));
            krates_model(final(out)@) == krates_model(old(out)@) + step.0
                && meta_model(final(meta)@) == step.1
        }),
{
    let ghost m0 = meta_model(meta@);
    let ghost out0 = krates_model(out@);
    let src: &String = match &p.source {
        Some(s) => s,
        None => {
            proof {
                assert(krates_model(out@) =~= out0 + Seq::<KrateModel>::empty());
            }
            return ;
        },
    };
    if str_eq(src.as_str(), "registry+https://github.com/rust-lang/crates.io-index") {
        match &p.checksum {
            Some(c) => {
                out.push(
                    Krate {
                        name: p.name.clone(),
                        version: p.version.clone(),
                        source: Source::CratesIo(c.clone()),
                    },
                );
                proof {
                    assert(krates_model(out@) =~= out0 + ingest_step(p@, m0).0);
                }
            },
            None => {
                let key = String::from_str("checksum ").concat(p.name.as_str()).concat(
                    " ",
                ).concat(p.version.as_str()).concat(" (").concat(
                    "registry+https://github.com/rust-lang/crates.io-index",
                ).concat(")");
                proof {
                    assert(key@ =~= composite_key(p@.name, p@.version));
                }
                let n = meta.len();
                let mut j: usize = 0;
                while j < n
                    invariant
                        n == meta@.len(),
                        j <= n,
                        m0 == meta_model(meta@),
                        m0 == meta_model(old(meta)@),
                        krates_model(out@) == out0,
                        out0 == krates_model(old(out)@),
                        p@.source == Some(registry_locator()),
                        p@.checksum is None,
                        key@ == composite_key(p@.name, p@.version),
                        forall|jj: int| 0 <= jj < j ==> #[trigger] m0[jj].0 != key@,
                    decreases n - j,
                {
                    if meta[j].0 == key {
                        let c = meta[j].1.clone();
                        let _ = meta.remove(j);
                        out.push(
                            Krate {
                                name: p.name.clone(),
                                version: p.version.clone(),
                                source: Source::CratesIo(c),
                            },
                        );
                        proof {
                            assert(m0[j as int].0 == key@);
                            assert(m0[j as int].1 == c@);
                            take_meta_at(m0, key@, j as int);
                            assert(take_meta(m0, composite_key(p@.name, p@.version)) == Some(
                                (m0[j as int].1, m0.remove(j as int)),
                            ));
                            let step = ingest_step(p@, m0);
                            assert(step.1 == m0.remove(j as int));
                            assert(step.0 =~= seq![
                                KrateModel {
                                    name: p@.name,
                                    version: p@.version,
                                    source: SourceModel::CratesIo(m0[j as int].1),
                                },
                            ]);
                            assert(meta_model(meta@) =~= m0.remove(j as int));
                            assert(krates_model(out@) =~= out0 + step.0);
                        }
                        return ;
                    }
                    j = j + 1;
                }
                proof {
                    take_meta_none(m0, key@);
                    assert(krates_model(out@) =~= out0
                        + Seq::<KrateModel>::empty());
                }
            },
        }
    } else {
        match parse_url(src.as_str()) {
            None => {
                proof {
                    assert(krates_model(out@) =~= out0
                        + Seq::<KrateModel>::empty());
                }
            },
            Some(parts) => {
                match Source::from_git_parts(&parts) {
                    Ok(s) => {
                        out.push(
                            Krate {
                                name: p.name.clone(),
                                version: p.version.clone(),
                                source: s,
                            },
                        );
                        proof {
                            assert(krates_model(out@) =~= out0 + ingest_step(
                                p@,
                                m0,
                            ).0);
                        }
                    },
                    Err(_) => {
                        proof {
                            assert(krates_model(out@) =~= out0
                                + Seq::<KrateModel>::empty());
                        }
                    },
                }
            },
        }
    }
}

/// Turns a parsed lock file into its dependency list, in file order.
/// Records without a recoverable identity are dropped, each alone.
pub fn read_lock_file(locks: LockContents) -> (r: Vec<Krate>)
    ensures
        krates_model(r@) == ingest(pkgs_model(locks.package@), meta_model(locks.metadata@)),
{
    let LockContents { package, metadata } = locks;
    let ghost pk0 = pkgs_model(package@);
    let ghost mm0 = meta_model(metadata@);
    let mut meta = metadata;
    let mut out: Vec<Krate> = Vec::new();
    let n = package.len();
    let mut i: usize = 0;
    proof {
        assert(pk0.skip(0) =~= pk0);
        assert(krates_model(out@) =~= Seq::<KrateModel>::empty());
    }
    while i < n
        invariant
            n == package@.len(),
            i <= n,
            pk0 == pkgs_model(package@),
            krates_model(out@) + ingest(pk0.skip(i as int), meta_model(meta@))
                == ingest(pk0, mm0),
        decreases n - i,
    {
        let ghost out_before = krates_model(out@);
        let ghost meta_before = meta_model(meta@);
        let p = &package[i];
        proof {
            assert(pk0.skip(i as int)[0] == pk0[i as int]);
            assert(pk0[i as int] == package@[i as int]@);
        }
        ingest_one(p, &mut meta, &mut out);
        proof {
            let step = ingest_step(pk0[i as int], meta_before);
            assert(pk0.skip(i as int).skip(1) =~= pk0.skip(i as int + 1));
            assert(ingest(pk0.skip(i as int), meta_before) == step.0 + ingest(
                pk0.skip(i as int + 1),
                step.1,
            ));
            assert(krates_model(out@) + ingest(
                pk0.skip(i as int + 1),
                meta_model(meta@),
            ) =~= ingest(pk0, mm0));
        }
        i = i + 1;
    }
    proof {
        assert(pk0.skip(n as int).len() == 0);
        assert(krates_model(out@) + Seq::<KrateModel>::empty() =~= out@.map_values(
            |k: Krate| k@,
        ));
    }
    out
}

} // verus!
