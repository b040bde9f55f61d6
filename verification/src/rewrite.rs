//! The conditional HTML body rewrite. When a relayed response is HTML (its
//! `content-type` contains `text/html`), the body is first made valid UTF-8
//! by lossy substitution and then every occurrence of the staging marker
//! attribute `data-wf-domain="<anything but a quote>"` is replaced with the
//! same attribute carrying the production domain. Any other body passes
//! through byte-for-byte.
//!
//! The marker grammar is this proxy's own rule, so the scan-and-replace is
//! implemented and verified here directly, against a recursive
//! leftmost-match specification (`rewrite_seq`).

use vstd::prelude::*;

use crate::bytes::find_sub;
use crate::bytes::index_of_byte;
use crate::bytes::lemma_index_of_byte_is;
use crate::bytes::occurs_in;
use crate::bytes::push_all;

verus! {

/// The bytes of the fixed marker attribute key `data-wf-domain="`.
pub open spec fn marker_prefix() -> Seq<u8> {
    seq![100u8, 97, 116, 97, 45, 119, 102, 45, 100, 111, 109, 97, 105, 110, 61, 34]
}

/// The bytes of `"text/html"`.
pub open spec fn text_html() -> Seq<u8> {
    seq![116u8, 101, 120, 116, 47, 104, 116, 109, 108]
}

/// The full marker attribute with value `v`: `data-wf-domain="v"`.
pub open spec fn marker(v: Seq<u8>) -> Seq<u8> {
    marker_prefix() + v + seq![34u8]
}

/// Length of the marker match at the head of `s`, if there is one: the fixed
/// key, then everything up to and including the first closing quote.
pub open spec fn head_match_len(s: Seq<u8>) -> Option<int> {
    if s.len() >= 16 && s.subrange(0, 16) == marker_prefix() {
        let q = index_of_byte(s.skip(16), 34);
        if q < s.len() - 16 {
            Some(16 + q as int + 1)
        } else {
            None
        }
    } else {
        None
    }
}

/// The rewritten body: scanning left to right, each leftmost marker match is
/// replaced with the marker carrying `prod`; all other bytes are copied.
pub open spec fn rewrite_seq(s: Seq<u8>, prod: Seq<u8>) -> Seq<u8>
    decreases s.len(),
{
    if s.len() == 0 {
        Seq::empty()
    } else {
        match head_match_len(s) {
            Some(l) => marker(prod) + rewrite_seq(s.skip(l), prod),
            None => seq![s[0]] + rewrite_seq(s.skip(1), prod),
        }
    }
}

/// Whether a raw `content-type` value announces HTML: it contains the
/// substring `text/html` (servers typically emit lowercase; a charset suffix
/// is tolerated by design).
pub open spec fn is_html_content_type(ct: Seq<u8>) -> bool {
    occurs_in(ct, text_html())
}

/// What `String::from_utf8_lossy` turns a byte sequence into, re-encoded as
/// bytes: invalid UTF-8 sequences become replacement characters, valid ones
/// stay as they are.
pub uninterp spec fn lossy_utf8(b: Seq<u8>) -> Seq<u8>;

/// Relies on `String::from_utf8_lossy`: its result is a function of the
/// input bytes alone, and valid UTF-8 — in particular pure ASCII — passes
/// through unchanged.
#[verifier::external_body]
fn utf8_lossy_normalize(b: &[u8]) -> (r: Vec<u8>)
    ensures
        r@ == lossy_utf8(b@),
        (forall|i: int| 0 <= i < b@.len() ==> b@[i] < 128) ==> r@ == b@,
{
    String::from_utf8_lossy(b).into_owned().into_bytes()
}

/// The marker key bytes as a fresh vector.
fn marker_prefix_bytes() -> (r: Vec<u8>)
    ensures
        r@ == marker_prefix(),
{
    let mut v: Vec<u8> = Vec::new();
    v.push(100);
    v.push(97);
    v.push(116);
    v.push(97);
    v.push(45);
    v.push(119);
    v.push(102);
    v.push(45);
    v.push(100);
    v.push(111);
    v.push(109);
    v.push(97);
    v.push(105);
    v.push(110);
    v.push(61);
    v.push(34);
    proof {
        assert(v@ =~= marker_prefix());
    }
    v
}

/// The bytes of `"text/html"` as a fresh vector.
fn text_html_bytes() -> (r: Vec<u8>)
    ensures
        r@ == text_html(),
{
    let mut v: Vec<u8> = Vec::new();
    v.push(116);
    v.push(101);
    v.push(120);
    v.push(116);
    v.push(47);
    v.push(104);
    v.push(116);
    v.push(109);
    v.push(108);
    proof {
        assert(v@ =~= text_html());
    }
    v
}

/// Finds the marker match starting at position `i` of `s`, if any, and
/// returns its length.
#[verifier::loop_isolation(false)]
fn match_at(s: &[u8], i: usize, prefix: &Vec<u8>) -> (r: Option<usize>)
    requires
        prefix@ == marker_prefix(),
        i <= s@.len(),
    ensures
        match r {
            Some(l) => head_match_len(s@.skip(i as int)) == Some(l as int) && 1 <= l && i + l
                <= s@.len(),
            None => head_match_len(s@.skip(i as int)) is None,
        },
{
    if s.len() - i < 16 {
        return None;
    }
    let mut j: usize = 0;
    while j < 16
        invariant
            forall|k: int| 0 <= k < j ==> s@[i + k] == marker_prefix()[k],
        decreases 16 - j,
    {
        if s[i + j] != prefix[j] {
            proof {
                assert(s@.skip(i as int).subrange(0, 16)[j as int] == s@[i + j]);
            }
            return None;
        }
        j = j + 1;
    }
    proof {
        assert(s@.skip(i as int).subrange(0, 16) =~= marker_prefix());
        assert(s@.skip(i as int).skip(16) =~= s@.skip(i + 16));
    }
    let mut j: usize = i + 16;
    while j < s.len() && s[j] != 34
        invariant
            i + 16 <= j <= s@.len(),
            forall|k: int| i + 16 <= k < j ==> s@[k] != 34,
        decreases s@.len() - j,
    {
        j = j + 1;
    }
    proof {
        assert forall|k: int| 0 <= k < j - (i + 16) implies #[trigger] s@.skip(i + 16)[k] != 34 by {
            assert(s@.skip(i + 16)[k] == s@[k + i + 16]);
        }
    }
    if j == s.len() {
        proof {
            lemma_index_of_byte_is(s@.skip(i + 16), 34, s@.len() - (i + 16));
        }
        None
    } else {
        proof {
            assert(s@.skip(i + 16)[j - (i + 16)] == s@[j as int]);
            lemma_index_of_byte_is(s@.skip(i + 16), 34, j - (i + 16));
        }
        Some(j + 1 - i)
    }
}

/// Replaces every leftmost marker match in `s` with the marker carrying
/// `prod`, copying all other bytes unchanged.
#[verifier::loop_isolation(false)]
pub fn rewrite_markers(s: &[u8], prod: &[u8]) -> (r: Vec<u8>)
    ensures
        r@ == rewrite_seq(s@, prod@),
{
    let prefix = marker_prefix_bytes();
    let mut out: Vec<u8> = Vec::new();
    let mut i: usize = 0;
    proof {
        assert(s@.skip(0) =~= s@);
    }
    while i < s.len()
        invariant
            0 <= i <= s@.len(),
            out@ + rewrite_seq(s@.skip(i as int), prod@) == rewrite_seq(s@, prod@),
        decreases s@.len() - i,
    {
        let ghost out0 = out@;
        match match_at(s, i, &prefix) {
            Some(l) => {
                push_all(&mut out, prefix.as_slice());
                push_all(&mut out, prod);
                out.push(34);
                proof {
                    assert(out@ =~= out0 + marker(prod@));
                    assert(s@.skip(i as int).skip(l as int) =~= s@.skip(i + l));
                    assert(out0 + (marker(prod@) + rewrite_seq(s@.skip(i + l), prod@)) =~= (out0
                        + marker(prod@)) + rewrite_seq(s@.skip(i + l), prod@));
                }
                i = i + l;
            },
            None => {
                proof {
                    assert(s@.skip(i as int)[0] == s@[i as int]);
                    assert(s@.skip(i as int).skip(1) =~= s@.skip(i + 1));
                    assert(out0 + (seq![s@[i as int]] + rewrite_seq(s@.skip(i + 1), prod@)) =~= (
                    out0 + seq![s@[i as int]]) + rewrite_seq(s@.skip(i + 1), prod@));
                }
                out.push(s[i]);
                i = i + 1;
            },
        }
    }
    proof {
        assert(out@ + rewrite_seq(s@.skip(s@.len() as int), prod@) =~= out@);
    }
    out
}

/// Applies the HTML rewrite exactly when the content-type announces HTML:
/// the body is normalized by lossy UTF-8 decoding and every marker
/// occurrence is replaced with `prod`. Any other body is returned
/// byte-for-byte unchanged, with no decoding attempted.
pub fn rewrite_body_if_html(content_type: &[u8], body: Vec<u8>, prod: &[u8]) -> (r: Vec<u8>)
    ensures
        is_html_content_type(content_type@) ==> r@ == rewrite_seq(lossy_utf8(body@), prod@),
        !is_html_content_type(content_type@) ==> r@ == body@,
{
    let th = text_html_bytes();
    if find_sub(content_type, th.as_slice()) {
        let norm = utf8_lossy_normalize(body.as_slice());
        rewrite_markers(norm.as_slice(), prod)
    } else {
        body
    }
}

/// A body in which no marker match starts anywhere is not altered at all.
pub proof fn lemma_rewrite_no_match(s: Seq<u8>, prod: Seq<u8>)
    requires
        forall|i: int| 0 <= i < s.len() ==> head_match_len(#[trigger] s.skip(i)) is None,
    ensures
        rewrite_seq(s, prod) == s,
    decreases s.len(),
{
    if s.len() > 0 {
        assert(head_match_len(s.skip(0)) is None);
        assert(s.skip(0) =~= s);
        assert forall|i: int| 0 <= i < s.skip(1).len() implies head_match_len(
            #[trigger] s.skip(1).skip(i),
        ) is None by {
            assert(s.skip(1).skip(i) =~= s.skip(i + 1));
            assert(head_match_len(s.skip(i + 1)) is None);
        }
        lemma_rewrite_no_match(s.skip(1), prod);
        assert(seq![s[0]] + s.skip(1) =~= s);
    }
}

/// A clean prefix passes through the rewrite verbatim: if no marker match
/// starts inside `x`, rewriting `x + y` copies `x` and rewrites `y`.
pub proof fn lemma_rewrite_append_no_match(x: Seq<u8>, y: Seq<u8>, prod: Seq<u8>)
    requires
        forall|i: int| 0 <= i < x.len() ==> head_match_len(#[trigger] (x + y).skip(i)) is None,
    ensures
        rewrite_seq(x + y, prod) == x + rewrite_seq(y, prod),
    decreases x.len(),
{
    if x.len() == 0 {
        assert(x + y =~= y);
        assert(x + rewrite_seq(y, prod) =~= rewrite_seq(y, prod));
    } else {
        let s = x + y;
        assert(head_match_len(s.skip(0)) is None);
        assert(s.skip(0) =~= s);
        assert(s.skip(1) =~= x.skip(1) + y);
        assert forall|i: int| 0 <= i < x.skip(1).len() implies head_match_len(
            #[trigger] (x.skip(1) + y).skip(i),
        ) is None by {
            assert((x.skip(1) + y).skip(i) =~= s.skip(i + 1));
            assert(head_match_len(s.skip(i + 1)) is None);
        }
        lemma_rewrite_append_no_match(x.skip(1), y, prod);
        assert(s[0] == x[0]);
        assert(seq![x[0]] + (x.skip(1) + rewrite_seq(y, prod)) =~= x + rewrite_seq(y, prod));
    }
}

/// A marker standing at the head of the input is replaced whole: its value
/// (which holds no quote) is swallowed up to the closing quote, and the
/// replacement carries `prod`.
pub proof fn lemma_rewrite_marker_head(v: Seq<u8>, y: Seq<u8>, prod: Seq<u8>)
    requires
        forall|k: int| 0 <= k < v.len() ==> v[k] != 34,
    ensures
        rewrite_seq(marker(v) + y, prod) == marker(prod) + rewrite_seq(y, prod),
{
    let s = marker(v) + y;
    assert(s.subrange(0, 16) =~= marker_prefix());
    let t = s.skip(16);
    assert(t =~= v + seq![34u8] + y);
    assert forall|k: int| 0 <= k < v.len() implies t[k] != 34 by {
        assert(t[k] == v[k]);
    }
    assert(t[v.len() as int] == 34);
    lemma_index_of_byte_is(t, 34, v.len() as int);
    assert(head_match_len(s) == Some(16 + v.len() as int + 1));
    assert(s.skip(16 + v.len() as int + 1) =~= y);
}

/// Every marker occurrence is replaced: a body splitting as
/// `a + data-wf-domain="v" + b`, with no match starting inside `a`, rewrites
/// to `a`, the marker carrying `prod`, then the rewrite of `b`. Applied
/// repeatedly this replaces all occurrences; nothing outside them is
/// altered.
pub proof fn lemma_rewrite_replaces_marker(a: Seq<u8>, v: Seq<u8>, b: Seq<u8>, prod: Seq<u8>)
    requires
        forall|k: int| 0 <= k < v.len() ==> v[k] != 34,
        forall|i: int|
            0 <= i < a.len() ==> head_match_len(#[trigger] (a + marker(v) + b).skip(i)) is None,
    ensures
        rewrite_seq(a + marker(v) + b, prod) == a + marker(prod) + rewrite_seq(b, prod),
{
    let y = marker(v) + b;
    assert(a + y =~= a + marker(v) + b);
    assert forall|i: int| 0 <= i < a.len() implies head_match_len(#[trigger] (a + y).skip(i))
        is None by {
        assert((a + y).skip(i) == (a + marker(v) + b).skip(i));
    }
    lemma_rewrite_append_no_match(a, y, prod);
    lemma_rewrite_marker_head(v, b, prod);
    assert(a + (marker(prod) + rewrite_seq(b, prod)) =~= a + marker(prod) + rewrite_seq(b, prod));
}

/// A body holding the marker exactly once rewrites to the same bytes with
/// just that occurrence replaced: the surroundings `a` and `b` pass through
/// verbatim.
pub proof fn lemma_rewrite_single_marker(a: Seq<u8>, v: Seq<u8>, b: Seq<u8>, prod: Seq<u8>)
    requires
        forall|k: int| 0 <= k < v.len() ==> v[k] != 34,
        forall|i: int|
            0 <= i < a.len() ==> head_match_len(#[trigger] (a + marker(v) + b).skip(i)) is None,
        forall|i: int| 0 <= i < b.len() ==> head_match_len(#[trigger] b.skip(i)) is None,
    ensures
        rewrite_seq(a + marker(v) + b, prod) == a + marker(prod) + b,
{
    lemma_rewrite_replaces_marker(a, v, b, prod);
    lemma_rewrite_no_match(b, prod);
}

} // verus!
