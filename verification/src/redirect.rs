//! The redirect resolver: given the inbound `Host` header and the configured
//! canonicalization mode, decide whether the request is answered with a
//! permanent redirect to the canonical host form before any proxying.

use vstd::prelude::*;

use crate::bytes::find_byte;
use crate::bytes::index_of_byte;
use crate::bytes::lemma_index_of_byte_is;
use crate::bytes::lemma_index_of_byte_props;
use crate::bytes::opt_bytes_view;
use crate::bytes::push_all;
use crate::bytes::query_part;

verus! {

/// Which canonical form of the public hostname inbound traffic is forced to.
#[derive(Clone, Copy, PartialEq, Eq, Structural, Debug)]
pub enum RedirectMode {
    /// Hosts without a leading `www.` are redirected to the `www.` form.
    WwwCanonical,
    /// Hosts with a leading `www.` are redirected to the bare root form.
    RootCanonical,
    /// No host canonicalization; every request is proxied.
    NoRedirect,
}

/// The bytes of `"www."`.
pub open spec fn www_dot() -> Seq<u8> {
    seq![119u8, 119, 119, 46]
}

/// The bytes of `"https://"`.
pub open spec fn https_prefix() -> Seq<u8> {
    seq![104u8, 116, 116, 112, 115, 58, 47, 47]
}

/// The configuration token selecting `WwwCanonical`: `"www"`.
pub open spec fn token_www() -> Seq<u8> {
    seq![119u8, 119, 119]
}

/// The configuration token selecting `RootCanonical`: `"root"`.
pub open spec fn token_root() -> Seq<u8> {
    seq![114u8, 111, 111, 116]
}

/// The configuration token selecting `NoRedirect`: `"none"`.
pub open spec fn token_none() -> Seq<u8> {
    seq![110u8, 111, 110, 101]
}

/// The host value with any trailing `:port` removed: everything before the
/// first colon.
pub open spec fn strip_port(host: Seq<u8>) -> Seq<u8> {
    host.take(index_of_byte(host, 58) as int)
}

/// Whether a (port-stripped) host begins with the literal `www.`.
pub open spec fn is_www_host(h: Seq<u8>) -> bool {
    h.len() >= 4 && h.subrange(0, 4) == www_dot()
}

/// The canonical host the resolver redirects to, if the inbound host is not
/// already canonical under `mode`.
pub open spec fn canonical_host(host: Seq<u8>, mode: RedirectMode) -> Option<Seq<u8>> {
    let h = strip_port(host);
    match mode {
        RedirectMode::WwwCanonical => if !is_www_host(h) {
            Some(www_dot() + h)
        } else {
            None
        },
        RedirectMode::RootCanonical => if is_www_host(h) {
            Some(h.skip(4))
        } else {
            None
        },
        RedirectMode::NoRedirect => None,
    }
}

/// The full redirect target: `https://` + canonical host + path + query,
/// when the resolver fires.
pub open spec fn check_redirect_spec(
    host: Seq<u8>,
    path: Seq<u8>,
    query: Option<Seq<u8>>,
    mode: RedirectMode,
) -> Option<Seq<u8>> {
    match canonical_host(host, mode) {
        Some(h) => Some(https_prefix() + h + path + query_part(query)),
        None => None,
    }
}

/// Which mode a configuration token selects, if any.
pub open spec fn mode_of_token(t: Seq<u8>) -> Option<RedirectMode> {
    if t == token_www() {
        Some(RedirectMode::WwwCanonical)
    } else if t == token_root() {
        Some(RedirectMode::RootCanonical)
    } else if t == token_none() {
        Some(RedirectMode::NoRedirect)
    } else {
        None
    }
}

impl RedirectMode {
    /// Parses the configuration token: `www`, `root` or `none`; anything else
    /// is rejected (a fatal startup error for the caller).
    pub fn parse(token: &[u8]) -> (r: Option<RedirectMode>)
        ensures
            r == mode_of_token(token@),
    {
        if token.len() == 3 && token[0] == 119 && token[1] == 119 && token[2] == 119 {
            proof {
                assert(token@ =~= token_www());
            }
            Some(RedirectMode::WwwCanonical)
        } else if token.len() == 4 && token[0] == 114 && token[1] == 111 && token[2] == 111
            && token[3] == 116 {
            proof {
                assert(token@ =~= token_root());
            }
            Some(RedirectMode::RootCanonical)
        } else if token.len() == 4 && token[0] == 110 && token[1] == 111 && token[2] == 110
            && token[3] == 101 {
            proof {
                assert(token@ =~= token_none());
            }
            Some(RedirectMode::NoRedirect)
        } else {
            None
        }
    }
}

/// The bytes of `"https://"` as a fresh vector.
fn https_prefix_bytes() -> (r: Vec<u8>)
    ensures
        r@ == https_prefix(),
{
    let mut v: Vec<u8> = Vec::new();
    v.push(104);
    v.push(116);
    v.push(116);
    v.push(112);
    v.push(115);
    v.push(58);
    v.push(47);
    v.push(47);
    proof {
        assert(v@ =~= https_prefix());
    }
    v
}

/// Decides, from the raw host header, path, query and mode, whether the
/// request is redirected, and to which URL. Fires exactly when the host is
/// not already in the canonical form; the target preserves path and query
/// unchanged.
pub fn check_redirect(host: &[u8], path: &[u8], query: &Option<Vec<u8>>, mode: RedirectMode) -> (r:
    Option<Vec<u8>>)
    ensures
        match check_redirect_spec(host@, path@, opt_bytes_view(*query), mode) {
            Some(url) => r matches Some(u) && u@ == url,
            None => r is None,
        },
{
    proof {
        lemma_index_of_byte_props(host@, 58);
    }
    let n = find_byte(host, 58);
    let stripped = &host[0..n];
    let is_www = stripped.len() >= 4 && stripped[0] == 119 && stripped[1] == 119 && stripped[2]
        == 119 && stripped[3] == 46;
    proof {
        if is_www {
            assert(stripped@.subrange(0, 4) =~= www_dot());
        } else if stripped@.len() >= 4 {
            assert(stripped@.subrange(0, 4)[0] == stripped@[0]);
            assert(stripped@.subrange(0, 4)[1] == stripped@[1]);
            assert(stripped@.subrange(0, 4)[2] == stripped@[2]);
            assert(stripped@.subrange(0, 4)[3] == stripped@[3]);
        }
        assert(is_www == is_www_host(stripped@));
    }
    let redirect_host: Option<Vec<u8>> = match mode {
        RedirectMode::WwwCanonical => {
            if !is_www {
                let mut h: Vec<u8> = Vec::new();
                h.push(119);
                h.push(119);
                h.push(119);
                h.push(46);
                push_all(&mut h, stripped);
                proof {
                    assert(h@ =~= www_dot() + strip_port(host@));
                }
                Some(h)
            } else {
                None
            }
        },
        RedirectMode::RootCanonical => {
            if is_www {
                let mut h: Vec<u8> = Vec::new();
                push_all(&mut h, &stripped[4..stripped.len()]);
                proof {
                    assert(h@ =~= strip_port(host@).skip(4));
                }
                Some(h)
            } else {
                None
            }
        },
        RedirectMode::NoRedirect => None,
    };
    match redirect_host {
        Some(h) => {
            let mut url = https_prefix_bytes();
            push_all(&mut url, h.as_slice());
            push_all(&mut url, path);
            match query {
                Some(q) => {
                    url.push(63);
                    push_all(&mut url, q.as_slice());
                },
                None => {},
            }
            proof {
                assert(url@ =~= https_prefix() + h@ + path@ + query_part(opt_bytes_view(*query)));
            }
            Some(url)
        },
        None => None,
    }
}

/// Feeding the target host of a `WwwCanonical` redirect back in as the
/// inbound host yields no further redirect: the redirect is a fixed point.
pub proof fn lemma_redirect_idempotent_www(host: Seq<u8>, h2: Seq<u8>)
    requires
        canonical_host(host, RedirectMode::WwwCanonical) == Some(h2),
    ensures
        canonical_host(h2, RedirectMode::WwwCanonical) is None,
{
    lemma_index_of_byte_props(host, 58);
    let h = strip_port(host);
    assert forall|k: int| 0 <= k < h2.len() implies h2[k] != 58 by {
        if k < 4 {
            assert(h2[k] == www_dot()[k]);
        } else {
            assert(h2[k] == h[k - 4]);
        }
    }
    lemma_strip_port_of_colon_free(h2);
    assert(h2.subrange(0, 4) =~= www_dot());
}

/// Feeding the target host of a `RootCanonical` redirect back in as the
/// inbound host yields no further redirect, provided the stripped inbound
/// host does not begin with a doubled `www.www.` (for such a host the target
/// still starts with `www.` and redirects once more).
pub proof fn lemma_redirect_idempotent_root(host: Seq<u8>, h2: Seq<u8>)
    requires
        canonical_host(host, RedirectMode::RootCanonical) == Some(h2),
        !is_www_host(strip_port(host).skip(4)),
    ensures
        canonical_host(h2, RedirectMode::RootCanonical) is None,
{
    lemma_index_of_byte_props(host, 58);
    let h = strip_port(host);
    assert forall|k: int| 0 <= k < h2.len() implies h2[k] != 58 by {
        assert(h2[k] == h[k + 4]);
    }
    lemma_strip_port_of_colon_free(h2);
}

/// A host with no colon strips to itself.
proof fn lemma_strip_port_of_colon_free(h: Seq<u8>)
    requires
        forall|k: int| 0 <= k < h.len() ==> h[k] != 58,
    ensures
        strip_port(h) == h,
{
    lemma_index_of_byte_is(h, 58, h.len() as int);
    assert(h.take(h.len() as int) =~= h);
}

} // verus!
