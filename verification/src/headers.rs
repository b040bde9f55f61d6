//! Header filtering for both legs of the proxy. Outbound requests drop
//! `host`, `connection`, `transfer-encoding` and `content-length`; relayed
//! responses drop `transfer-encoding`, `content-length`, `connection` and
//! `content-encoding`. Matching is case-insensitive; everything else passes
//! through unchanged and in order.

use vstd::prelude::*;

use crate::bytes::bytes_eq;
use crate::bytes::lower_bytes;
use crate::bytes::lower_seq;

verus! {

/// One HTTP header: a name and a raw value, both as bytes.
pub struct Header {
    pub name: Vec<u8>,
    pub value: Vec<u8>,
}

/// The bytes of `"host"`.
pub open spec fn name_host() -> Seq<u8> {
    seq![104u8, 111, 115, 116]
}

/// The bytes of `"connection"`.
pub open spec fn name_connection() -> Seq<u8> {
    seq![99u8, 111, 110, 110, 101, 99, 116, 105, 111, 110]
}

/// The bytes of `"transfer-encoding"`.
pub open spec fn name_transfer_encoding() -> Seq<u8> {
    seq![116u8, 114, 97, 110, 115, 102, 101, 114, 45, 101, 110, 99, 111, 100, 105, 110, 103]
}

/// The bytes of `"content-length"`.
pub open spec fn name_content_length() -> Seq<u8> {
    seq![99u8, 111, 110, 116, 101, 110, 116, 45, 108, 101, 110, 103, 116, 104]
}

/// The bytes of `"content-encoding"`.
pub open spec fn name_content_encoding() -> Seq<u8> {
    seq![99u8, 111, 110, 116, 101, 110, 116, 45, 101, 110, 99, 111, 100, 105, 110, 103]
}

/// The bytes of `"content-type"`.
pub open spec fn name_content_type() -> Seq<u8> {
    seq![99u8, 111, 110, 116, 101, 110, 116, 45, 116, 121, 112, 101]
}

/// Whether a header name (compared case-insensitively) must not be sent
/// upstream: stale or hop-by-hop request headers.
pub open spec fn req_blocked(name: Seq<u8>) -> bool {
    ||| lower_seq(name) == name_host()
    ||| lower_seq(name) == name_connection()
    ||| lower_seq(name) == name_transfer_encoding()
    ||| lower_seq(name) == name_content_length()
}

/// Whether a header name (compared case-insensitively) must not be relayed
/// to the client: hop-by-hop headers plus `content-encoding`, stale once the
/// upstream client has already decompressed the body.
pub open spec fn resp_blocked(name: Seq<u8>) -> bool {
    ||| lower_seq(name) == name_transfer_encoding()
    ||| lower_seq(name) == name_content_length()
    ||| lower_seq(name) == name_connection()
    ||| lower_seq(name) == name_content_encoding()
}

/// The request headers that survive filtering, kept in order.
pub open spec fn keep_request_headers(hs: Seq<Header>) -> Seq<Header>
    decreases hs.len(),
{
    if hs.len() == 0 {
        Seq::empty()
    } else if req_blocked(hs[0].name@) {
        keep_request_headers(hs.skip(1))
    } else {
        seq![hs[0]] + keep_request_headers(hs.skip(1))
    }
}

/// The response headers that survive filtering, kept in order.
pub open spec fn keep_response_headers(hs: Seq<Header>) -> Seq<Header>
    decreases hs.len(),
{
    if hs.len() == 0 {
        Seq::empty()
    } else if resp_blocked(hs[0].name@) {
        keep_response_headers(hs.skip(1))
    } else {
        seq![hs[0]] + keep_response_headers(hs.skip(1))
    }
}

/// The value of the first `content-type` header (case-insensitive) in `hs`,
/// or the empty sequence if there is none.
pub open spec fn content_type_of(hs: Seq<Header>) -> Seq<u8>
    decreases hs.len(),
{
    if hs.len() == 0 {
        Seq::empty()
    } else if lower_seq(hs[0].name@) == name_content_type() {
        hs[0].value@
    } else {
        content_type_of(hs.skip(1))
    }
}

/// The bytes of `"host"` as a fresh vector.
fn name_host_bytes() -> (r: Vec<u8>)
    ensures
        r@ == name_host(),
{
    let mut v: Vec<u8> = Vec::new();
    v.push(104);
    v.push(111);
    v.push(115);
    v.push(116);
    proof {
        assert(v@ =~= name_host());
    }
    v
}

/// The bytes of `"connection"` as a fresh vector.
fn name_connection_bytes() -> (r: Vec<u8>)
    ensures
        r@ == name_connection(),
{
    let mut v: Vec<u8> = Vec::new();
    v.push(99);
    v.push(111);
    v.push(110);
    v.push(110);
    v.push(101);
    v.push(99);
    v.push(116);
    v.push(105);
    v.push(111);
    v.push(110);
    proof {
        assert(v@ =~= name_connection());
    }
    v
}

/// The bytes of `"transfer-encoding"` as a fresh vector.
fn name_transfer_encoding_bytes() -> (r: Vec<u8>)
    ensures
        r@ == name_transfer_encoding(),
{
    let mut v: Vec<u8> = Vec::new();
    v.push(116);
    v.push(114);
    v.push(97);
    v.push(110);
    v.push(115);
    v.push(102);
    v.push(101);
    v.push(114);
    v.push(45);
    v.push(101);
    v.push(110);
    v.push(99);
    v.push(111);
    v.push(100);
    v.push(105);
    v.push(110);
    v.push(103);
    proof {
        assert(v@ =~= name_transfer_encoding());
    }
    v
}

/// The bytes of `"content-length"` as a fresh vector.
fn name_content_length_bytes() -> (r: Vec<u8>)
    ensures
        r@ == name_content_length(),
{
    let mut v: Vec<u8> = Vec::new();
    v.push(99);
    v.push(111);
    v.push(110);
    v.push(116);
    v.push(101);
    v.push(110);
    v.push(116);
    v.push(45);
    v.push(108);
    v.push(101);
    v.push(110);
    v.push(103);
    v.push(116);
    v.push(104);
    proof {
        assert(v@ =~= name_content_length());
    }
    v
}

/// The bytes of `"content-encoding"` as a fresh vector.
fn name_content_encoding_bytes() -> (r: Vec<u8>)
    ensures
        r@ == name_content_encoding(),
{
    let mut v: Vec<u8> = Vec::new();
    v.push(99);
    v.push(111);
    v.push(110);
    v.push(116);
    v.push(101);
    v.push(110);
    v.push(116);
    v.push(45);
    v.push(101);
    v.push(110);
    v.push(99);
    v.push(111);
    v.push(100);
    v.push(105);
    v.push(110);
    v.push(103);
    proof {
        assert(v@ =~= name_content_encoding());
    }
    v
}

/// The bytes of `"content-type"` as a fresh vector.
fn name_content_type_bytes() -> (r: Vec<u8>)
    ensures
        r@ == name_content_type(),
{
    let mut v: Vec<u8> = Vec::new();
    v.push(99);
    v.push(111);
    v.push(110);
    v.push(116);
    v.push(101);
    v.push(110);
    v.push(116);
    v.push(45);
    v.push(116);
    v.push(121);
    v.push(112);
    v.push(101);
    proof {
        assert(v@ =~= name_content_type());
    }
    v
}

/// Whether a header name is blocked on the request leg.
pub fn is_req_blocked(name: &[u8]) -> (r: bool)
    ensures
        r == req_blocked(name@),
{
    let low = lower_bytes(name);
    bytes_eq(low.as_slice(), name_host_bytes().as_slice()) || bytes_eq(
        low.as_slice(),
        name_connection_bytes().as_slice(),
    ) || bytes_eq(low.as_slice(), name_transfer_encoding_bytes().as_slice()) || bytes_eq(
        low.as_slice(),
        name_content_length_bytes().as_slice(),
    )
}

/// Whether a header name is blocked on the response leg.
pub fn is_resp_blocked(name: &[u8]) -> (r: bool)
    ensures
        r == resp_blocked(name@),
{
    let low = lower_bytes(name);
    bytes_eq(low.as_slice(), name_transfer_encoding_bytes().as_slice()) || bytes_eq(
        low.as_slice(),
        name_content_length_bytes().as_slice(),
    ) || bytes_eq(low.as_slice(), name_connection_bytes().as_slice()) || bytes_eq(
        low.as_slice(),
        name_content_encoding_bytes().as_slice(),
    )
}

/// Drops from a request's headers those that must not be sent upstream,
/// keeping everything else in order.
pub fn filter_request_headers(hs: Vec<Header>) -> (r: Vec<Header>)
    ensures
        r@ == keep_request_headers(hs@),
{
    let mut rest = hs;
    let mut out: Vec<Header> = Vec::new();
    while rest.len() > 0
        invariant
            out@ + keep_request_headers(rest@) == keep_request_headers(hs@),
        decreases rest@.len(),
    {
        proof {
            assert(rest@.remove(0) =~= rest@.skip(1));
        }
        let h = rest.remove(0);
        if !is_req_blocked(h.name.as_slice()) {
            proof {
                assert(out@ + (seq![h] + keep_request_headers(rest@)) =~= (out@ + seq![h])
                    + keep_request_headers(rest@));
            }
            out.push(h);
        }
    }
    proof {
        assert(out@ + keep_request_headers(rest@) =~= out@);
    }
    out
}

/// Drops from an upstream response's headers those that must not be relayed,
/// keeping everything else in order.
pub fn filter_response_headers(hs: Vec<Header>) -> (r: Vec<Header>)
    ensures
        r@ == keep_response_headers(hs@),
{
    let mut rest = hs;
    let mut out: Vec<Header> = Vec::new();
    while rest.len() > 0
        invariant
            out@ + keep_response_headers(rest@) == keep_response_headers(hs@),
        decreases rest@.len(),
    {
        proof {
            assert(rest@.remove(0) =~= rest@.skip(1));
        }
        let h = rest.remove(0);
        if !is_resp_blocked(h.name.as_slice()) {
            proof {
                assert(out@ + (seq![h] + keep_response_headers(rest@)) =~= (out@ + seq![h])
                    + keep_response_headers(rest@));
            }
            out.push(h);
        }
    }
    proof {
        assert(out@ + keep_response_headers(rest@) =~= out@);
    }
    out
}

/// The value of the first `content-type` header, or an empty vector if the
/// response carries none.
pub fn content_type_value(hs: &Vec<Header>) -> (r: Vec<u8>)
    ensures
        r@ == content_type_of(hs@),
{
    let ct_name = name_content_type_bytes();
    let mut i: usize = 0;
    proof {
        assert(hs@.skip(0) =~= hs@);
    }
    while i < hs.len()
        invariant
            0 <= i <= hs@.len(),
            ct_name@ == name_content_type(),
            content_type_of(hs@.skip(i as int)) == content_type_of(hs@),
            forall|k: int| 0 <= k < i ==> lower_seq(hs@[k].name@) != name_content_type(),
        decreases hs@.len() - i,
    {
        proof {
            assert(hs@.skip(i as int).skip(1) =~= hs@.skip(i + 1));
            assert(hs@.skip(i as int)[0] == hs@[i as int]);
        }
        let low = lower_bytes(hs[i].name.as_slice());
        if bytes_eq(low.as_slice(), ct_name.as_slice()) {
            return crate::bytes::clone_bytes(hs[i].value.as_slice());
        }
        i = i + 1;
    }
    proof {
        assert(hs@.skip(hs@.len() as int) =~= Seq::<Header>::empty());
    }
    Vec::new()
}

/// No blocked name survives request filtering: the headers sent upstream
/// never contain `host`, `connection`, `transfer-encoding` or
/// `content-length`, whatever the inbound request held.
pub proof fn lemma_request_filter_blocks(hs: Seq<Header>, i: int)
    requires
        0 <= i < keep_request_headers(hs).len(),
    ensures
        !req_blocked(keep_request_headers(hs)[i].name@),
    decreases hs.len(),
{
    if hs.len() == 0 {
    } else if req_blocked(hs[0].name@) {
        lemma_request_filter_blocks(hs.skip(1), i);
    } else {
        if i == 0 {
        } else {
            lemma_request_filter_blocks(hs.skip(1), i - 1);
        }
    }
}

/// No blocked name survives response filtering: the headers relayed to the
/// client never contain `transfer-encoding`, `content-length`, `connection`
/// or `content-encoding`, whatever the upstream sent.
pub proof fn lemma_response_filter_blocks(hs: Seq<Header>, i: int)
    requires
        0 <= i < keep_response_headers(hs).len(),
    ensures
        !resp_blocked(keep_response_headers(hs)[i].name@),
    decreases hs.len(),
{
    if hs.len() == 0 {
    } else if resp_blocked(hs[0].name@) {
        lemma_response_filter_blocks(hs.skip(1), i);
    } else {
        if i == 0 {
        } else {
            lemma_response_filter_blocks(hs.skip(1), i - 1);
        }
    }
}

} // verus!
