use std::cell::RefCell;

use crate_mirror::krate::{Krate, Source};
use crate_mirror::mirror::{
    locked_crates, plan_mirror, registry_index, should_refresh, sort_dedup_by_source, Backend,
    Ctx, FetchClient, IndexOutcome,
};
use crate_mirror::MirrorError;

fn registry_krate(name: &str, version: &str, checksum: &str) -> Krate {
    Krate {
        name: String::from(name),
        version: String::from(version),
        source: Source::CratesIo(String::from(checksum)),
    }
}

fn git_krate(name: &str, url: &str, rev: &str, ident: &str) -> Krate {
    Krate {
        name: String::from(name),
        version: String::from("1.0.0"),
        source: Source::Git {
            url: String::from(url),
            rev: String::from(rev),
            ident: String::from(ident),
        },
    }
}

enum UpdatedAnswer {
    Fails,
    Absent,
    At(i64),
}

struct MockBackend {
    keys: Vec<String>,
    updated_answer: UpdatedAnswer,
    list_fails: bool,
    uploads: RefCell<Vec<String>>,
    updated_calls: RefCell<usize>,
}

impl MockBackend {
    fn holding(keys: &[&str]) -> MockBackend {
        MockBackend {
            keys: keys.iter().map(|k| String::from(*k)).collect(),
            updated_answer: UpdatedAnswer::Absent,
            list_fails: false,
            uploads: RefCell::new(Vec::new()),
            updated_calls: RefCell::new(0),
        }
    }
}

impl Backend for MockBackend {
    fn fetch(&self, _krate: &Krate) -> Result<Vec<u8>, MirrorError> {
        Err(MirrorError::Backend(String::from("not stored")))
    }

    fn upload(&self, data: Vec<u8>, krate: &Krate) -> Result<usize, MirrorError> {
        self.uploads.borrow_mut().push(krate.cloud_id().to_text());
        Ok(data.len())
    }

    fn list(&self) -> Result<Vec<String>, MirrorError> {
        if self.list_fails {
            Err(MirrorError::Backend(String::from("list failed")))
        } else {
            Ok(self.keys.clone())
        }
    }

    fn updated(&self, _krate: &Krate) -> Result<Option<i64>, MirrorError> {
        *self.updated_calls.borrow_mut() += 1;
        match self.updated_answer {
            UpdatedAnswer::Fails => Err(MirrorError::Backend(String::from("no metadata"))),
            UpdatedAnswer::Absent => Ok(None),
            UpdatedAnswer::At(t) => Ok(Some(t)),
        }
    }

    fn set_prefix(&mut self, _prefix: &str) {}
}

struct MockFetch {
    fail_on: Vec<String>,
    fetched: RefCell<Vec<String>>,
    index_fetches: RefCell<usize>,
}

impl MockFetch {
    fn new() -> MockFetch {
        MockFetch {
            fail_on: Vec::new(),
            fetched: RefCell::new(Vec::new()),
            index_fetches: RefCell::new(0),
        }
    }

    fn failing_on(cloud_id: &str) -> MockFetch {
        MockFetch {
            fail_on: vec![String::from(cloud_id)],
            fetched: RefCell::new(Vec::new()),
            index_fetches: RefCell::new(0),
        }
    }
}

impl FetchClient for MockFetch {
    fn from_registry(&self, krate: &Krate) -> Result<Vec<u8>, MirrorError> {
        let cid = krate.cloud_id().to_text();
        self.fetched.borrow_mut().push(cid.clone());
        if self.fail_on.iter().any(|f| *f == cid) {
            Err(MirrorError::Fetch(String::from("unavailable")))
        } else {
            Ok(vec![1, 2, 3])
        }
    }

    fn registry_index(&self, _url: &str) -> Result<Vec<u8>, MirrorError> {
        *self.index_fetches.borrow_mut() += 1;
        Ok(vec![9, 9])
    }
}

// A timestamp far in the future: `now - t` stays below any sane window.
const FAR_FUTURE: i64 = 253402300799;

#[test]
fn already_present_keys_are_never_reuploaded() {
    let backend = MockBackend::holding(&["abc123"]);
    let ctx = Ctx::new(
        None,
        backend,
        MockFetch::new(),
        vec![registry_krate("foo", "1.0.0", "abc123"), registry_krate("bar", "2.0.0", "def456")],
    );
    let summary = locked_crates(&ctx).unwrap();
    assert_eq!(summary.planned, 1);
    assert_eq!(summary.uploaded, 1);
    assert_eq!(summary.failed, 0);
    assert_eq!(*ctx.backend.uploads.borrow(), vec![String::from("def456")]);
    assert_eq!(*ctx.client.fetched.borrow(), vec![String::from("def456")]);
}

#[test]
fn equal_sources_are_transferred_once() {
    let backend = MockBackend::holding(&[]);
    let a = git_krate("first", "https://example.com/bar", "9135717", "example.com-bar");
    let b = git_krate("second", "https://example.com/bar", "9135717", "example.com-bar");
    let ctx = Ctx::new(None, backend, MockFetch::new(), vec![a, b]);
    let summary = locked_crates(&ctx).unwrap();
    assert_eq!(summary.planned, 1);
    assert_eq!(ctx.client.fetched.borrow().len(), 1);
    assert_eq!(ctx.backend.uploads.borrow().len(), 1);
}

#[test]
fn one_failing_fetch_does_not_stop_the_rest() {
    let backend = MockBackend::holding(&[]);
    let ctx = Ctx::new(
        None,
        backend,
        MockFetch::failing_on("bad999"),
        vec![
            registry_krate("good", "1.0.0", "aaa111"),
            registry_krate("bad", "1.0.0", "bad999"),
            registry_krate("also-good", "1.0.0", "ccc333"),
        ],
    );
    let r = locked_crates(&ctx);
    let summary = r.unwrap();
    assert_eq!(summary.planned, 3);
    assert_eq!(summary.uploaded, 2);
    assert_eq!(summary.failed, 1);
    let uploads = ctx.backend.uploads.borrow();
    assert!(uploads.iter().any(|u| u == "aaa111"));
    assert!(uploads.iter().any(|u| u == "ccc333"));
    assert!(!uploads.iter().any(|u| u == "bad999"));
}

#[test]
fn empty_plan_is_a_no_op() {
    let backend = MockBackend::holding(&["abc123"]);
    let ctx = Ctx::new(None, backend, MockFetch::new(), vec![registry_krate(
        "foo", "1.0.0", "abc123",
    )]);
    let summary = locked_crates(&ctx).unwrap();
    assert_eq!(summary.planned, 0);
    assert!(ctx.backend.uploads.borrow().is_empty());
    assert!(ctx.client.fetched.borrow().is_empty());
}

#[test]
fn list_failure_fails_the_sync() {
    let mut backend = MockBackend::holding(&[]);
    backend.list_fails = true;
    let ctx = Ctx::new(None, backend, MockFetch::new(), vec![registry_krate(
        "foo", "1.0.0", "abc123",
    )]);
    assert!(matches!(locked_crates(&ctx), Err(MirrorError::Backend(_))));
}

#[test]
fn plan_is_sorted_and_deduplicated() {
    let krates = vec![
        git_krate("g", "https://example.com/bar", "9135717", "example.com-bar"),
        registry_krate("b", "1.0.0", "bbb"),
        registry_krate("a", "1.0.0", "aaa"),
        registry_krate("b2", "2.0.0", "bbb"),
    ];
    let existing: Vec<String> = Vec::new();
    let plan = plan_mirror(&krates, &existing);
    let ids: Vec<String> = plan.iter().map(|k| k.cloud_id().to_text()).collect();
    assert_eq!(ids, vec!["aaa", "bbb", "example.com-bar-9135717"]);
}

#[test]
fn sort_dedup_keeps_one_per_source() {
    let v = vec![
        registry_krate("x", "1.0.0", "ccc"),
        registry_krate("y", "1.0.0", "aaa"),
        registry_krate("z", "1.0.0", "ccc"),
    ];
    let r = sort_dedup_by_source(v);
    assert_eq!(r.len(), 2);
    assert_eq!(r[0].cloud_id().to_text(), "aaa");
    assert_eq!(r[1].cloud_id().to_text(), "ccc");
}

#[test]
fn fresh_index_skips_fetch_and_upload() {
    let mut backend = MockBackend::holding(&[]);
    backend.updated_answer = UpdatedAnswer::At(FAR_FUTURE);
    let ctx = Ctx::new(None, backend, MockFetch::new(), Vec::new());
    let outcome = registry_index(&ctx, 3600).unwrap();
    assert!(matches!(outcome, IndexOutcome::Fresh { last_updated: FAR_FUTURE, .. }));
    assert_eq!(*ctx.backend.updated_calls.borrow(), 1);
    assert_eq!(*ctx.client.index_fetches.borrow(), 0);
    assert!(ctx.backend.uploads.borrow().is_empty());
}

#[test]
fn absent_timestamp_always_refreshes() {
    let backend = MockBackend::holding(&[]);
    let ctx = Ctx::new(None, backend, MockFetch::new(), Vec::new());
    let outcome = registry_index(&ctx, u64::MAX).unwrap();
    assert!(matches!(outcome, IndexOutcome::Refreshed(2)));
    assert_eq!(*ctx.client.index_fetches.borrow(), 1);
    assert_eq!(ctx.backend.uploads.borrow().len(), 1);
}

#[test]
fn unreadable_timestamp_counts_as_stale() {
    let mut backend = MockBackend::holding(&[]);
    backend.updated_answer = UpdatedAnswer::Fails;
    let ctx = Ctx::new(None, backend, MockFetch::new(), Vec::new());
    let outcome = registry_index(&ctx, u64::MAX).unwrap();
    assert!(matches!(outcome, IndexOutcome::Refreshed(_)));
    assert_eq!(*ctx.client.index_fetches.borrow(), 1);
    assert_eq!(ctx.backend.uploads.borrow().len(), 1);
}

#[test]
fn index_key_is_the_synthetic_identity() {
    let backend = MockBackend::holding(&[]);
    let ctx = Ctx::new(None, backend, MockFetch::new(), Vec::new());
    registry_index(&ctx, 0).unwrap();
    let uploads = ctx.backend.uploads.borrow();
    // Empty revision: the key ends with the dash of `{ident}-{rev}`.
    assert_eq!(uploads[0], "github.com-rust-lang-crates.io-index-");
}

#[test]
fn should_refresh_is_exact() {
    assert!(!should_refresh(&Ok(Some(1000)), 1500, 600));
    assert!(should_refresh(&Ok(Some(1000)), 1601, 600));
    assert!(should_refresh(&Ok(None), 1500, 600));
    assert!(should_refresh(
        &Err(MirrorError::Backend(String::from("x"))),
        1500,
        600
    ));
    // A timestamp in the future is within any window.
    assert!(!should_refresh(&Ok(Some(2000)), 1500, 600));
}

#[test]
fn ctx_default_root_dir_is_current() {
    let ctx = Ctx::new(None, MockBackend::holding(&[]), MockFetch::new(), Vec::new());
    assert_eq!(ctx.root_dir, ".");
    let ctx2 = Ctx::new(
        Some(String::from("/work")),
        MockBackend::holding(&[]),
        MockFetch::new(),
        Vec::new(),
    );
    assert_eq!(ctx2.root_dir, "/work");
}
