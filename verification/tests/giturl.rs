use crate_mirror::krate::{Krate, Source};
use crate_mirror::MirrorError;

fn git_fields(s: Source) -> (String, String, String) {
    match s {
        Source::Git { url, rev, ident } => (url, rev, ident),
        Source::CratesIo(_) => panic!("expected a git source"),
    }
}

#[test]
fn rev_is_truncated_to_seven_characters() {
    // A full 40-character hash supplied as `rev`.
    let s = Source::from_git_url(
        "git+https://example.com/bar?rev=9135717aaaabbbbccccddddeeeeffff00001111",
    )
    .unwrap();
    let (_, rev, _) = git_fields(s);
    assert_eq!(rev, "9135717");
    assert_eq!(rev.len(), 7);
}

#[test]
fn short_rev_is_rejected() {
    let r = Source::from_git_url("git+https://example.com/bar?rev=913571");
    assert!(matches!(r, Err(MirrorError::ShortRevision)));
}

#[test]
fn missing_rev_is_rejected() {
    let r = Source::from_git_url("git+https://example.com/bar");
    assert!(matches!(r, Err(MirrorError::MissingRevision)));
}

#[test]
fn malformed_url_is_rejected() {
    let r = Source::from_git_url("not a url at all");
    assert!(matches!(r, Err(MirrorError::InvalidUrl)));
}

#[test]
fn three_spellings_share_one_identity() {
    // Short id; full hash; short id with a documentation fragment — and the
    // URL spelled with host case, a `.git` suffix, and a trailing slash.
    let a = Source::from_git_url("git+https://Example.COM/bar.git?rev=9135717").unwrap();
    let b = Source::from_git_url(
        "git+https://example.com/bar?rev=9135717aaaabbbbccccddddeeeeffff00001111",
    )
    .unwrap();
    let c = Source::from_git_url(
        "git+https://example.com/bar/?rev=9135717#9135717aaaabbbbccccddddeeeeffff00001111",
    )
    .unwrap();
    let (ua, ra, ia) = git_fields(a);
    let (ub, rb, ib) = git_fields(b);
    let (uc, rc, ic) = git_fields(c);
    assert_eq!(ia, ib);
    assert_eq!(ib, ic);
    assert_eq!(ra, rb);
    assert_eq!(rb, rc);
    assert_eq!(ua, ub);
    assert_eq!(ub, uc);
}

#[test]
fn canonical_url_is_normalized() {
    let s = Source::from_git_url("git+https://Example.COM/bar.git?rev=9135717").unwrap();
    let (url, rev, ident) = git_fields(s);
    assert_eq!(url, "https://example.com/bar");
    assert_eq!(rev, "9135717");
    assert_eq!(ident, "example.com-bar");
}

#[test]
fn default_port_is_dropped_and_other_ports_kept() {
    let s = Source::from_git_url("git+https://example.com:443/bar.git?rev=9135717").unwrap();
    let (url, _, _) = git_fields(s);
    assert_eq!(url, "https://example.com/bar");

    let s = Source::from_git_url("git+https://example.com:8080/bar.git?rev=9135717").unwrap();
    let (url, _, ident) = git_fields(s);
    assert_eq!(url, "https://example.com:8080/bar");
    // The port does not enter the identity token.
    assert_eq!(ident, "example.com-bar");
}

#[test]
fn query_and_fragment_stay_out_of_the_canonical_url() {
    let s = Source::from_git_url("git+https://example.com/bar?rev=9135717abc#ffffffff").unwrap();
    let (url, _, _) = git_fields(s);
    assert_eq!(url, "https://example.com/bar");
}

#[test]
fn ident_is_key_safe() {
    let s = Source::from_git_url("git+ssh://Example.com/A/B/c_d.git?rev=9135717").unwrap();
    let (_, _, ident) = git_fields(s);
    assert_eq!(ident, "example.com-a-b-c_d");
}

#[test]
fn git_cloud_id_composes_ident_and_rev() {
    let s = Source::from_git_url("git+https://Example.COM/bar.git?rev=9135717abc").unwrap();
    let k = Krate { name: String::from("bar"), version: String::from("0.1.0"), source: s };
    assert_eq!(k.cloud_id().to_text(), "example.com-bar-9135717");
}

#[test]
fn error_texts() {
    assert_eq!(
        MirrorError::MissingRevision.describe(),
        "url doesn't contain a revision specifier"
    );
    assert_eq!(MirrorError::ShortRevision.describe(), "revision specifier is too short");
    assert_eq!(
        MirrorError::Backend(String::from("boom")).describe(),
        "backend error: boom"
    );
}
