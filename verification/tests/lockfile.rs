use crate_mirror::krate::Source;
use crate_mirror::lock::{read_lock_file, LockContents, Package};

const REGISTRY: &str = "registry+https://github.com/rust-lang/crates.io-index";

fn pkg(name: &str, version: &str, source: Option<&str>, checksum: Option<&str>) -> Package {
    Package {
        name: String::from(name),
        version: String::from(version),
        source: source.map(String::from),
        checksum: checksum.map(String::from),
    }
}

fn checksum_of(s: &Source) -> &str {
    match s {
        Source::CratesIo(c) => c.as_str(),
        Source::Git { .. } => panic!("expected a registry source"),
    }
}

#[test]
fn new_schema_inline_checksum() {
    let locks = LockContents {
        package: vec![pkg("foo", "1.0.0", Some(REGISTRY), Some("abc123"))],
        metadata: vec![],
    };
    let krates = read_lock_file(locks);
    assert_eq!(krates.len(), 1);
    assert_eq!(krates[0].name, "foo");
    assert_eq!(krates[0].version, "1.0.0");
    assert_eq!(checksum_of(&krates[0].source), "abc123");
}

#[test]
fn inline_checksum_wins_whatever_the_metadata_says() {
    let locks = LockContents {
        package: vec![pkg("foo", "1.0.0", Some(REGISTRY), Some("abc123"))],
        metadata: vec![(
            String::from("checksum foo 1.0.0 (registry+https://github.com/rust-lang/crates.io-index)"),
            String::from("zzz999"),
        )],
    };
    let krates = read_lock_file(locks);
    assert_eq!(krates.len(), 1);
    assert_eq!(checksum_of(&krates[0].source), "abc123");
}

#[test]
fn old_schema_looks_up_the_composite_key() {
    let locks = LockContents {
        package: vec![pkg("foo", "1.0.0", Some(REGISTRY), None)],
        metadata: vec![(
            String::from("checksum foo 1.0.0 (registry+https://github.com/rust-lang/crates.io-index)"),
            String::from("abc123"),
        )],
    };
    let krates = read_lock_file(locks);
    assert_eq!(krates.len(), 1);
    assert_eq!(checksum_of(&krates[0].source), "abc123");
}

#[test]
fn old_schema_without_metadata_entry_drops_the_record() {
    let locks = LockContents {
        package: vec![pkg("foo", "1.0.0", Some(REGISTRY), None)],
        metadata: vec![(String::from("checksum bar 2.0.0 (somewhere)"), String::from("x"))],
    };
    let krates = read_lock_file(locks);
    assert_eq!(krates.len(), 0);
}

#[test]
fn metadata_entry_is_consumed_once() {
    // Two records competing for one metadata entry: the first consumes it,
    // the second has no recoverable checksum and is dropped.
    let locks = LockContents {
        package: vec![
            pkg("foo", "1.0.0", Some(REGISTRY), None),
            pkg("foo", "1.0.0", Some(REGISTRY), None),
        ],
        metadata: vec![(
            String::from("checksum foo 1.0.0 (registry+https://github.com/rust-lang/crates.io-index)"),
            String::from("abc123"),
        )],
    };
    let krates = read_lock_file(locks);
    assert_eq!(krates.len(), 1);
}

#[test]
fn path_dependency_is_skipped_silently() {
    let locks = LockContents {
        package: vec![pkg("local", "0.1.0", None, None)],
        metadata: vec![],
    };
    assert_eq!(read_lock_file(locks).len(), 0);
}

#[test]
fn unparseable_git_source_is_skipped_alone() {
    let locks = LockContents {
        package: vec![
            pkg("bad", "0.1.0", Some("no scheme here"), None),
            pkg("foo", "1.0.0", Some(REGISTRY), Some("abc123")),
        ],
        metadata: vec![],
    };
    let krates = read_lock_file(locks);
    assert_eq!(krates.len(), 1);
    assert_eq!(krates[0].name, "foo");
}

#[test]
fn short_rev_entry_is_dropped() {
    let locks = LockContents {
        package: vec![pkg("bar", "0.1.0", Some("git+https://example.com/bar?rev=123"), None)],
        metadata: vec![],
    };
    assert_eq!(read_lock_file(locks).len(), 0);
}

#[test]
fn end_to_end_two_entries() {
    let locks = LockContents {
        package: vec![
            pkg("foo", "1.0.0", Some(REGISTRY), Some("abc123")),
            pkg("bar", "0.1.0", Some("git+https://Example.COM/bar.git?rev=9135717abc"), None),
        ],
        metadata: vec![],
    };
    let krates = read_lock_file(locks);
    assert_eq!(krates.len(), 2);
    assert_eq!(krates[0].cloud_id().to_text(), "abc123");
    assert_eq!(krates[1].cloud_id().to_text(), "example.com-bar-9135717");
    assert_eq!(krates[0].local_id().to_text(), "foo-1.0.0.crate");
    assert_eq!(krates[1].local_id().to_text(), "example.com-bar");
    match &krates[1].source {
        Source::Git { url, .. } => assert_eq!(url, "https://example.com/bar"),
        Source::CratesIo(_) => panic!("expected a git source"),
    }
}

#[test]
fn file_order_is_kept() {
    let locks = LockContents {
        package: vec![
            pkg("z", "1.0.0", Some(REGISTRY), Some("zzz")),
            pkg("a", "1.0.0", Some(REGISTRY), Some("aaa")),
        ],
        metadata: vec![],
    };
    let krates = read_lock_file(locks);
    assert_eq!(krates.len(), 2);
    assert_eq!(krates[0].name, "z");
    assert_eq!(krates[1].name, "a");
}
