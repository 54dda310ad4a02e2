//! Parsed-URL model and the git source canonicalizer.
//!
//! A URL is held as plain values (scheme, host, port, path, query pairs); the
//! outside parser fills the model, and everything derived from it — the
//! canonical URL text and the key-safe identity token — is computed and
//! specified here.
//!
//! Canonicalization rules, a compatibility contract (changing any of them
//! changes every derived identity):
//! - a leading `git+` is stripped from the scheme;
//! - the host is lowercased (ASCII);
//! - the scheme's default port (https 443, http 80, ssh 22, git 9418) is
//!   dropped, any other port is kept;
//! - trailing slashes and one trailing `.git` are stripped from the path;
//! - query and fragment do not appear in the canonical URL.

use vstd::prelude::*;
use vstd::string::*;

use crate::text::{
    chars_of, dec_chars, keysafe_char, keysafe_char_exec, keysafe_seq, lower_char,
    lower_char_exec, lower_seq, push_dec, string_from_chars,
};

verus! {

// ------------------------------------------------------------------
// The parsed-URL model
// ------------------------------------------------------------------

/// A URL, decomposed into plain values.
pub struct UrlParts {
    pub scheme: String,
    pub host: Option<String>,
    pub port: Option<u16>,
    pub path: String,
    pub query: Vec<(String, String)>,
}

/// The mathematical shape of a parsed URL.
pub struct UrlPartsModel {
    pub scheme: Seq<char>,
    pub host: Option<Seq<char>>,
    pub port: Option<u16>,
    pub path: Seq<char>,
    pub query: Seq<(Seq<char>, Seq<char>)>,
}

impl View for UrlParts {
    type V = UrlPartsModel;

    open spec fn view(&self) -> UrlPartsModel {
        UrlPartsModel {
            scheme: self.scheme@,
            host: match self.host {
                Some(h) => Some(h@),
                None => None,
            },
            port: self.port,
            path: self.path@,
            query: self.query@.map_values(|p: (String, String)| (p.0@, p.1@)),
        }
    }
}

/// What the outside URL parser yields for a given text, `None` on malformed
/// input. Parsing is a pure function of the text; nothing more is assumed of
/// it.
pub uninterp spec fn url_parse_of(s: Seq<char>) -> Option<UrlPartsModel>;

/// Relies on `url::Url::parse` and the accessors `scheme`, `host_str`,
/// `port`, `path` and `query_pairs`: together they decompose a URL text into
/// plain values, as a pure function of that text.
#[verifier::external_body]
pub fn parse_url(s: &str) -> (r: Option<UrlParts>)
    ensures
        match r {
            Some(p) => url_parse_of(s@) == Some(p@),
            None => url_parse_of(s@) is None,
        },
{
    match url::Url::parse(s) {
        Ok(u) => Some(UrlParts {
            scheme: u.scheme().to_string(),
            host: u.host_str().map(|h| h.to_string()),
            port: u.port(),
            path: u.path().to_string(),
            query: u.query_pairs().map(|(k, v)| (k.into_owned(), v.into_owned())).collect(),
        }),
        Err(_) => None,
    }
}

// ------------------------------------------------------------------
// Canonicalization, specified
// ------------------------------------------------------------------

pub open spec fn strip_git_plus(scheme: Seq<char>) -> Seq<char> {
    if scheme.len() >= 4 && scheme.subrange(0, 4) == "git+"@ {
        scheme.skip(4)
    } else {
        scheme
    }
}

pub open spec fn strip_trailing_slashes(p: Seq<char>) -> Seq<char>
    decreases p.len(),
{
    if p.len() > 0 && p.last() == '/' {
        strip_trailing_slashes(p.drop_last())
    } else {
        p
    }
}

pub open spec fn strip_dot_git(p: Seq<char>) -> Seq<char> {
    if p.len() >= 4 && p.subrange(p.len() - 4, p.len() as int) == ".git"@ {
        p.subrange(0, p.len() - 4)
    } else {
        p
    }
}

/// The path of the canonical URL: trailing slashes gone, then one `.git`
/// suffix gone, then trailing slashes again.
pub open spec fn canonical_path(p: Seq<char>) -> Seq<char> {
    strip_trailing_slashes(strip_dot_git(strip_trailing_slashes(p)))
}

pub open spec fn default_port(scheme: Seq<char>) -> Option<u16> {
    if scheme == "https"@ {
        Some(443u16)
    } else if scheme == "http"@ {
        Some(80u16)
    } else if scheme == "ssh"@ {
        Some(22u16)
    } else if scheme == "git"@ {
        Some(9418u16)
    } else {
        None
    }
}

pub open spec fn canonical_port(scheme: Seq<char>, port: Option<u16>) -> Option<u16> {
    match port {
        None => None,
        Some(p) => if default_port(scheme) == Some(p) {
            None
        } else {
            Some(p)
        },
    }
}

pub open spec fn host_of(v: UrlPartsModel) -> Seq<char> {
    match v.host {
        Some(h) => h,
        None => Seq::empty(),
    }
}

pub open spec fn port_text(p: Option<u16>) -> Seq<char> {
    match p {
        None => Seq::empty(),
        Some(n) => seq![':'] + dec_chars(n as int),
    }
}

/// The canonical URL text for a parsed URL with a host.
pub open spec fn canonical_url_model(v: UrlPartsModel) -> Seq<char>
    recommends
        v.host is Some,
{
    let scheme = strip_git_plus(v.scheme);
    scheme + "://"@ + lower_seq(host_of(v)) + port_text(canonical_port(scheme, v.port))
        + canonical_path(v.path)
}

/// The key-safe identity token: host and canonical path, each character made
/// key-safe. Stable across runs, not required to be human-reversible.
pub open spec fn ident_model(v: UrlPartsModel) -> Seq<char>
    recommends
        v.host is Some,
{
    keysafe_seq(host_of(v) + canonical_path(v.path))
}

// ------------------------------------------------------------------
// Canonicalization, executed
// ------------------------------------------------------------------

/// A canonicalized git URL: its stable text and its identity token.
pub struct Canonical {
    pub url: String,
    pub ident: String,
}

/// The first `k` characters dropped.
fn tail_from(v: &Vec<char>, k: usize) -> (r: Vec<char>)
    requires
        k <= v@.len(),
    ensures
        r@ == v@.skip(k as int),
{
    let mut out: Vec<char> = Vec::new();
    let mut i: usize = k;
    while i < v.len()
        invariant
            k <= i <= v@.len(),
            out@ =~= v@.subrange(k as int, i as int),
        decreases v@.len() - i,
    {
        out.push(v[i]);
        i = i + 1;
        proof {
            assert(out@ =~= v@.subrange(k as int, i as int));
        }
    }
    proof {
        assert(v@.subrange(k as int, v@.len() as int) =~= v@.skip(k as int));
    }
    out
}

fn append_vec(dst: &mut Vec<char>, src: &Vec<char>)
    ensures
        final(dst)@ == old(dst)@ + src@,
{
    let mut i: usize = 0;
    while i < src.len()
        invariant
            i <= src@.len(),
            dst@ =~= old(dst)@ + src@.take(i as int),
        decreases src@.len() - i,
    {
        dst.push(src[i]);
        i = i + 1;
        proof {
            assert(dst@ =~= old(dst)@ + src@.take(i as int));
        }
    }
    proof {
        assert(old(dst)@ + src@.take(src@.len() as int) =~= old(dst)@ + src@);
    }
}

fn map_lower(v: &Vec<char>) -> (r: Vec<char>)
    ensures
        r@ == lower_seq(v@),
{
    let mut out: Vec<char> = Vec::new();
    let mut i: usize = 0;
    while i < v.len()
        invariant
            i <= v@.len(),
            out@ =~= v@.take(i as int).map_values(|c: char| lower_char(c)),
        decreases v@.len() - i,
    {
        out.push(lower_char_exec(v[i]));
        i = i + 1;
        proof {
            assert(out@ =~= v@.take(i as int).map_values(|c: char| lower_char(c)));
        }
    }
    proof {
        assert(v@.take(v@.len() as int) =~= v@);
    }
    out
}

fn map_keysafe(v: &Vec<char>) -> (r: Vec<char>)
    ensures
        r@ == keysafe_seq(v@),
{
    let mut out: Vec<char> = Vec::new();
    let mut i: usize = 0;
    while i < v.len()
        invariant
            i <= v@.len(),
            out@ =~= v@.take(i as int).map_values(|c: char| keysafe_char(c)),
        decreases v@.len() - i,
    {
        out.push(keysafe_char_exec(v[i]));
        i = i + 1;
        proof {
            assert(out@ =~= v@.take(i as int).map_values(|c: char| keysafe_char(c)));
        }
    }
    proof {
        assert(v@.take(v@.len() as int) =~= v@);
    }
    out
}

fn strip_git_plus_exec(v: Vec<char>) -> (r: Vec<char>)
    ensures
        r@ == strip_git_plus(v@),
{
    if v.len() >= 4 && v[0] == 'g' && v[1] == 'i' && v[2] == 't' && v[3] == '+' {
        proof {
            reveal_strlit("git+");
            assert(v@.subrange(0, 4) =~= "git+"@);
        }
        tail_from(&v, 4)
    } else {
        proof {
            reveal_strlit("git+");
            if v@.len() >= 4 && v@.subrange(0, 4) == "git+"@ {
                assert(v@[0] == v@.subrange(0, 4)[0]);
                assert(v@[1] == v@.subrange(0, 4)[1]);
                assert(v@[2] == v@.subrange(0, 4)[2]);
                assert(v@[3] == v@.subrange(0, 4)[3]);
            }
        }
        v
    }
}

fn strip_trailing_slashes_exec(v: Vec<char>) -> (r: Vec<char>)
    ensures
        r@ == strip_trailing_slashes(v@),
{
    let mut v = v;
    let ghost orig = v@;
    while v.len() > 0 && v[v.len() - 1] == '/'
        invariant
            strip_trailing_slashes(orig) == strip_trailing_slashes(v@),
        decreases v@.len(),
    {
        proof {
            assert(v@.last() == '/');
        }
        v.pop();
    }
    v
}

fn strip_dot_git_exec(v: Vec<char>) -> (r: Vec<char>)
    ensures
        r@ == strip_dot_git(v@),
{
    let mut v = v;
    let n = v.len();
    if n >= 4 && v[n - 4] == '.' && v[n - 3] == 'g' && v[n - 2] == 'i' && v[n - 1] == 't' {
        proof {
            reveal_strlit(".git");
            assert(v@.subrange(v@.len() - 4, v@.len() as int) =~= ".git"@);
        }
        v.truncate(n - 4);
        v
    } else {
        proof {
            reveal_strlit(".git");
            if v@.len() >= 4 && v@.subrange(v@.len() - 4, v@.len() as int) == ".git"@ {
                let tail = v@.subrange(v@.len() - 4, v@.len() as int);
                assert(v@[v@.len() - 4] == tail[0]);
                assert(v@[v@.len() - 3] == tail[1]);
                assert(v@[v@.len() - 2] == tail[2]);
                assert(v@[v@.len() - 1] == tail[3]);
            }
        }
        v
    }
}

fn canonical_path_exec(v: Vec<char>) -> (r: Vec<char>)
    ensures
        r@ == canonical_path(v@),
{
    strip_trailing_slashes_exec(strip_dot_git_exec(strip_trailing_slashes_exec(v)))
}

fn canonical_port_exec(scheme: &Vec<char>, port: Option<u16>) -> (r: Option<u16>)
    ensures
        r == canonical_port(scheme@, port),
{
    let p = match port {
        Some(p) => p,
        None => {
            return None;
        },
    };
    let def: Option<u16> = default_port_exec(scheme);
    match def {
        Some(d) => if d == p {
            None
        } else {
            Some(p)
        },
        None => Some(p),
    }
}

fn is_chars(v: &Vec<char>, s: &str) -> (r: bool)
    ensures
        r == (v@ == s@),
{
    let c = chars_of(s);
    if v.len() != c.len() {
        return false;
    }
    let mut i: usize = 0;
    while i < v.len()
        invariant
            v@.len() == c@.len(),
            c@ == s@,
            i <= v@.len(),
            forall|j: int| 0 <= j < i ==> v@[j] == c@[j],
        decreases v@.len() - i,
    {
        if v[i] != c[i] {
            return false;
        }
        i = i + 1;
    }
    proof {
        assert(v@ =~= s@);
    }
    true
}

fn default_port_exec(scheme: &Vec<char>) -> (r: Option<u16>)
    ensures
        r == default_port(scheme@),
{
    if is_chars(scheme, "https") {
        Some(443)
    } else if is_chars(scheme, "http") {
        Some(80)
    } else if is_chars(scheme, "ssh") {
        Some(22)
    } else if is_chars(scheme, "git") {
        Some(9418)
    } else {
        None
    }
}

/// Canonicalizes a parsed git URL into its stable text and identity token.
/// A URL without a host cannot name a repository and is rejected.
pub fn canonicalize_git_url(parts: &UrlParts) -> (r: Result<Canonical, crate::MirrorError>)
    ensures
        match r {
            Ok(c) => parts@.host is Some && c.url@ == canonical_url_model(parts@) && c.ident@
                == ident_model(parts@),
            Err(e) => parts@.host is None && e is MissingHost,
        },
{
    let host: &String = match &parts.host {
        Some(h) => h,
        None => {
            return Err(crate::MirrorError::MissingHost);
        },
    };
    let scheme = strip_git_plus_exec(chars_of(parts.scheme.as_str()));
    let host_chars = chars_of(host.as_str());
    let cpath = canonical_path_exec(chars_of(parts.path.as_str()));

    let mut url: Vec<char> = Vec::new();
    append_vec(&mut url, &scheme);
    url.push(':');
    url.push('/');
    url.push('/');
    proof {
        reveal_strlit("://");
        assert(url@ =~= scheme@ + "://"@);
    }
    let lowered = map_lower(&host_chars);
    append_vec(&mut url, &lowered);
    match canonical_port_exec(&scheme, parts.port) {
        Some(p) => {
            url.push(':');
            push_dec(&mut url, p as u32);
            proof {
                assert(url@ =~= scheme@ + "://"@ + lower_seq(host_chars@) + port_text(
                    canonical_port(scheme@, parts.port),
                ));
            }
        },
        None => {
            proof {
                assert(url@ =~= scheme@ + "://"@ + lower_seq(host_chars@) + port_text(
                    canonical_port(scheme@, parts.port),
                ));
            }
        },
    }
    append_vec(&mut url, &cpath);

    let mut idsrc: Vec<char> = Vec::new();
    append_vec(&mut idsrc, &host_chars);
    append_vec(&mut idsrc, &cpath);
    let ident = map_keysafe(&idsrc);

    proof {
        assert(url@ =~= canonical_url_model(parts@));
        assert(ident@ =~= ident_model(parts@));
    }
    Ok(Canonical { url: string_from_chars(&url), ident: string_from_chars(&ident) })
}

} // verus!
