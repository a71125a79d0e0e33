use vstd::prelude::*;

use crate::text::{
    all_digits, contains, decimal, has_infix, has_prefix, is_digit, last_index_of,
    lemma_decimal_digits, lemma_tidy_trimmed, lemma_trimmed_tidy, only_digits, rfind_char,
    starts_with, tidy, trim, trimmed,
};

verus! {

/// The service schemes a target may already carry.
#[derive(Clone, Copy, Debug, PartialEq, Eq, Structural)]
pub enum ServiceScheme {
    Http,
    Https,
    HttpStatus,
    Unix,
    Ssh,
    Rdp,
    Tcp,
}

/// The text a target of the scheme starts with.
pub open spec fn scheme_token(k: ServiceScheme) -> Seq<char> {
    match k {
        ServiceScheme::Http => "http://"@,
        ServiceScheme::Https => "https://"@,
        ServiceScheme::HttpStatus => "http_status:"@,
        ServiceScheme::Unix => "unix:"@,
        ServiceScheme::Ssh => "ssh://"@,
        ServiceScheme::Rdp => "rdp://"@,
        ServiceScheme::Tcp => "tcp://"@,
    }
}

impl ServiceScheme {
    /// The text a target of this scheme starts with.
    pub fn token(self) -> (r: &'static str)
        ensures
            r@ == scheme_token(self),
    {
        match self {
            ServiceScheme::Http => "http://",
            ServiceScheme::Https => "https://",
            ServiceScheme::HttpStatus => "http_status:",
            ServiceScheme::Unix => "unix:",
            ServiceScheme::Ssh => "ssh://",
            ServiceScheme::Rdp => "rdp://",
            ServiceScheme::Tcp => "tcp://",
        }
    }
}

/// `t` starts with the token of some known scheme.
pub open spec fn has_scheme(t: Seq<char>) -> bool {
    exists|k: ServiceScheme| starts_with(t, #[trigger] scheme_token(k))
}

/// The scheme whose token starts `t`, if any; the schemes are tried in the
/// order of their declaration.
pub fn scheme_of(t: &str) -> (r: Option<ServiceScheme>)
    ensures
        r is Some <==> has_scheme(t@),
        r matches Some(k) ==> starts_with(t@, scheme_token(k)),
{
    let all = [
        ServiceScheme::Http,
        ServiceScheme::Https,
        ServiceScheme::HttpStatus,
        ServiceScheme::Unix,
        ServiceScheme::Ssh,
        ServiceScheme::Rdp,
        ServiceScheme::Tcp,
    ];
    let mut i: usize = 0;
    while i < 7
        invariant
            forall|j: int| 0 <= j < i ==> !starts_with(t@, #[trigger] scheme_token(all@[j])),
            all@ == seq![
                ServiceScheme::Http,
                ServiceScheme::Https,
                ServiceScheme::HttpStatus,
                ServiceScheme::Unix,
                ServiceScheme::Ssh,
                ServiceScheme::Rdp,
                ServiceScheme::Tcp,
            ],
        decreases 7 - i,
    {
        let k = all[i];
        if has_prefix(t, k.token()) {
            return Some(k);
        }
        i = i + 1;
    }
    assert forall|k: ServiceScheme| !starts_with(t@, #[trigger] scheme_token(k)) by {
        match k {
            ServiceScheme::Http => assert(all@[0] == k),
            ServiceScheme::Https => assert(all@[1] == k),
            ServiceScheme::HttpStatus => assert(all@[2] == k),
            ServiceScheme::Unix => assert(all@[3] == k),
            ServiceScheme::Ssh => assert(all@[4] == k),
            ServiceScheme::Rdp => assert(all@[5] == k),
            ServiceScheme::Tcp => assert(all@[6] == k),
        }
    }
    None
}

/// `t` reads `<host>:<port>`, split at its last colon, with a non-empty host
/// that holds no `://` and does not start with `/`, and a port of digits.
pub open spec fn host_port_shape(t: Seq<char>) -> bool {
    let c = last_index_of(t, ':');
    let host = t.take(c);
    let port = t.skip(c + 1);
    &&& c >= 0
    &&& host.len() > 0
    &&& all_digits(port)
    &&& !contains(host, "://"@)
    &&& host[0] != '/'
}

/// The canonical form of a service target typed by a user: an empty or blank
/// input is kept as it is; otherwise surrounding white space goes, a bare port becomes `http://localhost:<port>`; `<host>:<port>`
/// gets `http://` in front; anything else, and a target that already names a
/// scheme, is kept.
pub open spec fn normalized(raw: Seq<char>) -> Seq<char> {
    let t = trimmed(raw);
    if t.len() == 0 {
        raw
    } else if has_scheme(t) {
        t
    } else if all_digits(t) {
        "http://localhost:"@ + t
    } else if host_port_shape(t) {
        "http://"@ + t
    } else {
        t
    }
}

/// Turn what a user typed as a service target into a full service URL.
pub fn normalize_service_input(input: &str) -> (r: String)
    ensures
        r@ == normalized(input@),
{
    let t = trim(input);
    let n = t.unicode_len();
    if n == 0 {
        return String::from_str(input);
    }
    if scheme_of(t).is_some() {
        return String::from_str(t);
    }
    if only_digits(t) {
        let mut r = String::from_str("http://localhost:");
        r.append(t);
        return r;
    }
    if let Some(c) = rfind_char(t, ':') {
        let host = t.substring_char(0, c);
        let port = t.substring_char(c + 1, n);
        if host.unicode_len() > 0 && only_digits(port) && !has_infix(host, "://") && host.get_char(
            0,
        ) != '/' {
            let mut r = String::from_str("http://");
            r.append(t);
            return r;
        }
    }
    String::from_str(t)
}

proof fn lemma_prefixed_tidy(p: Seq<char>, t: Seq<char>)
    requires
        tidy(t),
        t.len() > 0,
        p.len() > 0,
        p[0] == 'h',
    ensures
        tidy(p + t),
{
    assert((p + t).last() == t.last());
}

/// Normalising twice gives what normalising once gives.
pub proof fn normalize_idempotent(x: Seq<char>)
    ensures
        normalized(normalized(x)) == normalized(x),
{
    let t = trimmed(x);
    lemma_trimmed_tidy(x);
    let u = normalized(x);
    if t.len() == 0 {
    } else if has_scheme(t) || (!all_digits(t) && !host_port_shape(t)) {
        lemma_tidy_trimmed(t);
    } else {
        reveal_strlit("http://localhost:");
        reveal_strlit("http://");
        let p = if all_digits(t) {
            "http://localhost:"@
        } else {
            "http://"@
        };
        assert(u == p + t);
        lemma_prefixed_tidy(p, t);
        lemma_tidy_trimmed(u);
        assert(starts_with(u, scheme_token(ServiceScheme::Http))) by {
            assert(u.take(7) =~= "http://"@);
        }
    }
}

/// A bare port number normalises to `http://localhost:<port>`.
pub proof fn bare_port_normalized(port: nat)
    ensures
        normalized(decimal(port)) == "http://localhost:"@ + decimal(port),
{
    let d = decimal(port);
    lemma_decimal_digits(port);
    assert(is_digit(d[0]) && is_digit(d.last()));
    lemma_tidy_trimmed(d);
    assert(!has_scheme(d)) by {
        reveal_strlit("http://");
        reveal_strlit("https://");
        reveal_strlit("http_status:");
        reveal_strlit("unix:");
        reveal_strlit("ssh://");
        reveal_strlit("rdp://");
        reveal_strlit("tcp://");
        assert forall|k: ServiceScheme| !starts_with(d, #[trigger] scheme_token(k)) by {
            let tok = scheme_token(k);
            if starts_with(d, tok) {
                assert(d.take(tok.len() as int)[0] == tok[0]);
            }
        }
    }
}

} // verus!
