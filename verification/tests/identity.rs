use crate_mirror::krate::{source_eq_exec, source_le_exec, Krate, Source};

fn registry_krate(name: &str, version: &str, checksum: &str) -> Krate {
    Krate {
        name: String::from(name),
        version: String::from(version),
        source: Source::CratesIo(String::from(checksum)),
    }
}

fn git_krate(name: &str, version: &str, url: &str, rev: &str, ident: &str) -> Krate {
    Krate {
        name: String::from(name),
        version: String::from(version),
        source: Source::Git {
            url: String::from(url),
            rev: String::from(rev),
            ident: String::from(ident),
        },
    }
}

#[test]
fn equality_ignores_name_and_version() {
    let a = registry_krate("foo", "1.0.0", "abc123");
    let b = registry_krate("bar", "2.0.0", "abc123");
    assert!(a == b);

    let c = git_krate("x", "0.1.0", "https://example.com/r", "9135717", "example.com-r");
    let d = git_krate("y", "9.9.9", "https://example.com/r", "9135717", "example.com-r");
    assert!(c == d);
}

#[test]
fn equality_distinguishes_sources() {
    let a = registry_krate("foo", "1.0.0", "abc123");
    let b = registry_krate("foo", "1.0.0", "def456");
    assert!(a != b);

    let c = git_krate("x", "0.1.0", "https://example.com/r", "9135717", "example.com-r");
    let d = git_krate("x", "0.1.0", "https://example.com/r", "0000000", "example.com-r");
    assert!(c != d);
    assert!(a != c);
}

#[test]
fn ordering_is_by_source_only() {
    let reg = registry_krate("zzz", "9.0.0", "aaa");
    let git = git_krate("aaa", "0.0.1", "https://example.com/r", "9135717", "example.com-r");
    // Registry sources sort before git sources, whatever the names say.
    assert!(source_le_exec(&reg.source, &git.source));
    assert!(!source_le_exec(&git.source, &reg.source));

    let a = Source::CratesIo(String::from("abc"));
    let b = Source::CratesIo(String::from("abd"));
    assert!(source_le_exec(&a, &b));
    assert!(!source_le_exec(&b, &a));
    assert!(source_le_exec(&a, &a));
    assert!(source_eq_exec(&a, &a));
    assert!(!source_eq_exec(&a, &b));
}

#[test]
fn partial_cmp_is_by_source() {
    let reg = registry_krate("zzz", "9.0.0", "aaa");
    let git = git_krate("aaa", "0.0.1", "https://example.com/r", "9135717", "example.com-r");
    assert_eq!(reg.partial_cmp(&git), Some(std::cmp::Ordering::Less));
    assert!(reg < git);

    let a = registry_krate("a", "1.0.0", "abc");
    let b = registry_krate("b", "2.0.0", "abc");
    assert_eq!(a.partial_cmp(&b), Some(std::cmp::Ordering::Equal));
    let c = registry_krate("c", "3.0.0", "abd");
    assert_eq!(c.partial_cmp(&a), Some(std::cmp::Ordering::Greater));
}

#[test]
fn cloud_id_of_registry_source_is_checksum() {
    let k = registry_krate("foo", "1.0.0", "abc123");
    assert_eq!(k.cloud_id().to_text(), "abc123");
}

#[test]
fn cloud_id_of_git_source_is_ident_dash_rev() {
    let k = git_krate("bar", "0.1.0", "https://example.com/bar", "9135717", "example.com-bar");
    assert_eq!(k.cloud_id().to_text(), "example.com-bar-9135717");
}

#[test]
fn local_id_shapes() {
    let r = registry_krate("foo", "1.0.0", "abc123");
    assert_eq!(r.local_id().to_text(), "foo-1.0.0.crate");
    let g = git_krate("bar", "0.1.0", "https://example.com/bar", "9135717", "example.com-bar");
    assert_eq!(g.local_id().to_text(), "example.com-bar");
}

#[test]
fn describe_names_the_provenance() {
    let r = registry_krate("foo", "1.0.0", "abc123");
    assert_eq!(r.describe(), "foo-1.0.0(crates.io)");
    let g = git_krate("bar", "0.1.0", "https://example.com/bar", "9135717", "example.com-bar");
    assert_eq!(g.describe(), "bar-0.1.0(git)");
}

#[test]
fn is_git_tells_variants_apart() {
    let r = registry_krate("foo", "1.0.0", "abc123");
    let g = git_krate("bar", "0.1.0", "https://example.com/bar", "9135717", "example.com-bar");
    assert!(!r.source.is_git());
    assert!(g.source.is_git());
}

#[test]
fn duplicate_is_equal() {
    let g = git_krate("bar", "0.1.0", "https://example.com/bar", "9135717", "example.com-bar");
    let copy = g.duplicate();
    assert!(copy == g);
    assert_eq!(copy.name, g.name);
    assert_eq!(copy.version, g.version);
}
