//! Reads a claim from the payload of a JWT carried in an `Authorization` header.
//! The token's signature is not verified here: a JWT validation step in front of
//! this policy is what makes the claim trustworthy.
use base64::Engine;
use vstd::prelude::*;
use vstd::utf8::{encode_utf8, encode_scalar};

use crate::json::{json_document, json_string_member, string_member_of, JsonValue};
use crate::text::{
    chars_of, is_white_space, trim_end, trim_start, drop_trailing_char, drop_trailing_white_space, field_len, find_separator,
    skip_white_space, trim, trim_end_char,
};

verus! {

broadcast use vstd::utf8::char_is_scalar;

/// Whether `s` starts with `Bearer ` or `bearer `.
pub open spec fn has_bearer_prefix(s: Seq<char>) -> bool {
    &&& s.len() >= 7
    &&& s[0] == 'B' || s[0] == 'b'
    &&& s[1] == 'e'
    &&& s[2] == 'a'
    &&& s[3] == 'r'
    &&& s[4] == 'e'
    &&& s[5] == 'r'
    &&& s[6] == ' '
}

/// `s` without its `Bearer ` (or `bearer `) scheme; `s` itself when it has none.
pub open spec fn strip_bearer(s: Seq<char>) -> Seq<char> {
    if has_bearer_prefix(s) {
        s.skip(7)
    } else {
        s
    }
}

/// The second `.`-separated field of `s`, none when `s` holds no `.`.
pub open spec fn second_field(s: Seq<char>) -> Option<Seq<char>> {
    let d = field_len(s, '.');
    if d < s.len() {
        let rest = s.skip(d + 1 as int);
        Some(rest.take(field_len(rest, '.') as int))
    } else {
        None
    }
}

/// The base64 text of the payload of the token in the header value `authorization`:
/// the scheme is removed, the token trimmed, its second `.`-separated part taken
/// and the `=` padding that ends it dropped. None when the token holds no `.`.
pub open spec fn payload_text(authorization: Seq<char>) -> Option<Seq<char>> {
    match second_field(trim(strip_bearer(authorization))) {
        Some(field) => Some(trim_end_char(field, '=')),
        None => None,
    }
}

/// The bytes that `base64::engine::general_purpose::URL_SAFE_NO_PAD` decodes from
/// `text`, none when it rejects `text`.
pub uninterp spec fn base64_url_decoded(text: Seq<u8>) -> Option<Seq<u8>>;

/// The claim `claim` of the token in `authorization`: its payload text, UTF-8
/// encoded, decoded from base64 and read as a JSON object whose member `claim` is a
/// string. None where any step fails.
pub open spec fn claim_of(authorization: Seq<char>, claim: Seq<char>) -> Option<Seq<char>> {
    match payload_text(authorization) {
        Some(text) => match base64_url_decoded(encode_utf8(text)) {
            Some(payload) => string_member_of(payload, claim),
            None => None,
        },
        None => None,
    }
}

/// Decodes `text` with `URL_SAFE_NO_PAD.decode` of the base64 crate.
/// Trusted: the result is the named decoding of `text`, none exactly when the
/// engine returns an error.
#[verifier::external_body]
fn decode_base64_url(text: &[u8]) -> (r: Option<Vec<u8>>)
    ensures
        base64_url_decoded(text@) == match r {
            Some(v) => Some(v@),
            None => None,
        },
{
    base64::engine::general_purpose::URL_SAFE_NO_PAD.decode(text).ok()
}

/// The UTF-8 encoding of `a + b` is that of `a` followed by that of `b`.
proof fn lemma_encode_concat(a: Seq<char>, b: Seq<char>)
    ensures
        encode_utf8(a + b) == encode_utf8(a) + encode_utf8(b),
    decreases a.len(),
{
    if a.len() == 0 {
        assert(a + b =~= b);
        assert(encode_utf8(a) + encode_utf8(b) =~= encode_utf8(b));
    } else {
        assert((a + b).drop_first() =~= a.drop_first() + b);
        assert((a + b)[0] == a[0]);
        lemma_encode_concat(a.drop_first(), b);
        assert(encode_utf8(a + b) =~= encode_scalar(a[0] as u32) + encode_utf8(
            a.drop_first() + b,
        ));
        assert(encode_utf8(a) + encode_utf8(b) =~= encode_scalar(a[0] as u32) + (encode_utf8(
            a.drop_first(),
        ) + encode_utf8(b)));
    }
}

/// The number of bytes of the UTF-8 encoding of `c`.
fn utf8_width(c: char) -> (r: usize)
    ensures
        r == encode_scalar(c as u32).len(),
        1 <= r <= 4,
{
    let u = c as u32;
    if u <= 0x7F {
        1
    } else if u <= 0x7FF {
        2
    } else if u <= 0xFFFF {
        3
    } else {
        4
    }
}

/// The byte offset in the UTF-8 encoding of `c` at which the character `c[k]` starts.
fn byte_offset(c: &Vec<char>, k: usize) -> (r: usize)
    requires
        k <= c@.len(),
        encode_utf8(c@).len() <= usize::MAX,
    ensures
        r == encode_utf8(c@.take(k as int)).len(),
{
    let mut off: usize = 0;
    let mut i: usize = 0;
    assert(c@.take(0) =~= Seq::<char>::empty());
    while i < k
        invariant
            i <= k <= c@.len(),
            encode_utf8(c@).len() <= usize::MAX,
            off == encode_utf8(c@.take(i as int)).len(),
        decreases k - i,
    {
        let w = utf8_width(c[i]);
        proof {
            assert(c@.take(i + 1) =~= c@.take(i as int) + seq![c@[i as int]]);
            lemma_encode_concat(c@.take(i as int), seq![c@[i as int]]);
            let one = seq![c@[i as int]];
            assert(one[0] == c@[i as int]);
            assert(one.drop_first() =~= Seq::<char>::empty());
            assert(encode_utf8(one.drop_first()) =~= Seq::<u8>::empty());
            assert(encode_utf8(one) =~= encode_scalar(c@[i as int] as u32));
            assert(c@ =~= c@.take(i + 1) + c@.skip(i + 1));
            lemma_encode_concat(c@.take(i + 1), c@.skip(i + 1));
        }
        off = off + w;
        i = i + 1;
    }
    off
}

/// The character range of the payload text within `c`, as [`payload_text`] takes it.
fn payload_range(c: &Vec<char>) -> (r: Option<(usize, usize)>)
    ensures
        match r {
            Some((x, y)) => x <= y <= c@.len() && payload_text(c@) == Some(
                c@.subrange(x as int, y as int),
            ),
            None => payload_text(c@) is None,
        },
{
    let n = c.len();
    let lo: usize = if n >= 7 && (c[0] == 'B' || c[0] == 'b') && c[1] == 'e' && c[2] == 'a' && c[3]
        == 'r' && c[4] == 'e' && c[5] == 'r' && c[6] == ' ' {
        7
    } else {
        0
    };
    assert(strip_bearer(c@) =~= c@.subrange(lo as int, n as int));
    let a = skip_white_space(c, lo, n);
    let b = drop_trailing_white_space(c, a, n);
    let ghost t = c@.subrange(a as int, b as int);
    assert(trim(strip_bearer(c@)) == t);
    let d = find_separator(c, a, b, '.');
    if d == b {
        return None;
    }
    assert(t.skip(d - a + 1) =~= c@.subrange(d + 1, b as int));
    let e = find_separator(c, d + 1, b, '.');
    assert(c@.subrange(d + 1, b as int).take(e - (d + 1)) =~= c@.subrange(d + 1, e as int));
    let f = drop_trailing_char(c, d + 1, e, '=');
    Some((d + 1, f))
}

/// The UTF-8 bytes of the payload text of the token in `authorization`, the text
/// that is handed to the base64 decoder; none when the token holds no `.`.
pub fn payload_segment(authorization: &str) -> (r: Option<Vec<u8>>)
    ensures
        r.deep_view() == match payload_text(authorization@) {
            Some(text) => Some(encode_utf8(text)),
            None => None,
        },
{
    let c = chars_of(authorization);
    let bytes = authorization.as_bytes();
    let len = bytes.len();
    match payload_range(&c) {
        None => None,
        Some((x, y)) => {
            let bx = byte_offset(&c, x);
            let by = byte_offset(&c, y);
            proof {
                let s = c@;
                assert(s =~= s.take(x as int) + s.subrange(x as int, y as int) + s.skip(y as int));
                lemma_encode_concat(s.take(x as int), s.subrange(x as int, y as int));
                lemma_encode_concat(s.take(x as int) + s.subrange(x as int, y as int), s.skip(y as int));
                assert(s.take(y as int) =~= s.take(x as int) + s.subrange(x as int, y as int));
                assert(bytes@.subrange(bx as int, by as int) =~= encode_utf8(s.subrange(x as int, y as int)));
            }
            let mut out: Vec<u8> = Vec::new();
            let mut i = bx;
            while i < by
                invariant
                    bx <= i <= by <= bytes@.len(),
                    out@ == bytes@.subrange(bx as int, i as int),
                decreases by - i,
            {
                out.push(bytes[i]);
                assert(out@ =~= bytes@.subrange(bx as int, i + 1));
                i = i + 1;
            }
            Some(out)
        },
    }
}

/// Extract a string claim from a `Bearer <jwt>` Authorization header value.
pub fn claim_from_authorization(authorization: &str, claim: &str) -> (r: Option<String>)
    ensures
        r.deep_view() == claim_of(authorization@, claim@),
{
    let segment = match payload_segment(authorization) {
        Some(s) => s,
        None => return None,
    };
    assert(segment.deep_view() =~= segment@);
    let payload = match decode_base64_url(segment.as_slice()) {
        Some(p) => p,
        None => return None,
    };
    json_string_member(payload.as_slice(), claim)
}

/// The claim read is the string member named `claim` of the object in the
/// decoded payload, and no other member: none when the payload is no object, or
/// has no member of that name, or that member is no string.
pub proof fn lemma_claim_is_named_member(
    authorization: Seq<char>,
    claim: Seq<char>,
    text: Seq<char>,
    payload: Seq<u8>,
)
    requires
        payload_text(authorization) == Some(text),
        base64_url_decoded(encode_utf8(text)) == Some(payload),
    ensures
        claim_of(authorization, claim) == match json_document(payload) {
            Some(JsonValue::Object(m)) => if m.dom().contains(claim) {
                match m[claim] {
                    JsonValue::Str(s) => Some(s),
                    _ => None,
                }
            } else {
                None
            },
            _ => None,
        },
{
}

/// No claim is read from a token without a payload part, nor from a payload that
/// is no base64.
pub proof fn lemma_claim_needs_decodable_payload(authorization: Seq<char>, claim: Seq<char>)
    requires
        payload_text(authorization) matches Some(text) ==> base64_url_decoded(encode_utf8(text))
            is None,
    ensures
        claim_of(authorization, claim) is None,
{
}

/// `k` copies of `c`.
pub open spec fn run_of(c: char, k: nat) -> Seq<char> {
    Seq::new(k, |i: int| c)
}

/// What `trim_end_char` drops is exactly the run of `c` that ends `s`: `s` is the
/// result followed by copies of `c`, and the result does not end with `c`.
pub proof fn lemma_trim_end_char_drops_trailing_run(s: Seq<char>, c: char)
    ensures
        exists|k: nat| s == trim_end_char(s, c) + #[trigger] run_of(c, k),
        trim_end_char(s, c).len() == 0 || trim_end_char(s, c).last() != c,
    decreases s.len(),
{
    if s.len() > 0 && s.last() == c {
        lemma_trim_end_char_drops_trailing_run(s.drop_last(), c);
        let r = trim_end_char(s, c);
        let k = choose|k: nat| s.drop_last() == r + run_of(c, k);
        assert(r == trim_end_char(s.drop_last(), c));
        assert(s =~= s.drop_last().push(c));
        assert(run_of(c, k + 1) =~= run_of(c, k).push(c));
        assert(s =~= r + run_of(c, k + 1));
    } else {
        assert(s =~= s + run_of(c, 0));
    }
}

/// For a token `h.p` with one `.` followed by white space, the payload text is `p`
/// without its `=` padding: trailing white space is not part of the payload.
pub proof fn lemma_payload_ignores_trailing_white_space(
    h: Seq<char>,
    p: Seq<char>,
    w: Seq<char>,
)
    requires
        no_dot(h),
        no_dot(p),
        p.len() > 0,
        !is_white_space(p.last()),
        forall|i: int| 0 <= i < w.len() ==> is_white_space(w[i]),
    ensures
        payload_text(h + seq!['.'] + p + w) == Some(trim_end_char(p, '=')),
{
    let a = h + seq!['.'] + p + w;
    let tail = seq!['.'] + p + w;
    assert(a =~= h + tail);
    let hs = strip_bearer(h);
    assert(has_bearer_prefix(a) == has_bearer_prefix(h)) by {
        if h.len() < 7 {
            assert(a[h.len() as int] == '.');
        } else {
            assert(forall|i: int| 0 <= i < 7 ==> a[i] == h[i]);
        }
    }
    assert(strip_bearer(a) =~= hs + tail);
    lemma_trim_start_before_dot(hs, tail);
    let ts = trim_start(hs);
    assert(no_dot(ts)) by {
        lemma_trim_start_suffix(hs);
    }
    let y = ts + seq!['.'] + p;
    assert(ts + tail =~= y + w);
    lemma_trim_end_all_white(y, w);
    assert(trim(strip_bearer(a)) == y);
    let r0 = seq!['.'] + p;
    assert(y =~= ts + r0);
    lemma_field_len_concat(ts, r0, '.');
    let rest = y.skip(ts.len() + 1 as int);
    assert(rest =~= p);
    lemma_field_len_no_sep(p, '.');
    assert(rest.take(p.len() as int) =~= p);
}

/// Trailing white space is trimmed up to a last character that is no white space.
proof fn lemma_trim_end_all_white(y: Seq<char>, w: Seq<char>)
    requires
        y.len() > 0,
        !is_white_space(y.last()),
        forall|i: int| 0 <= i < w.len() ==> is_white_space(w[i]),
    ensures
        trim_end(y + w) == y,
    decreases w.len(),
{
    if w.len() == 0 {
        assert(y + w =~= y);
    } else {
        assert((y + w).last() == w.last());
        assert((y + w).drop_last() =~= y + w.drop_last());
        lemma_trim_end_all_white(y, w.drop_last());
    }
}

/// A text without `sep` is one field.
proof fn lemma_field_len_no_sep(s: Seq<char>, sep: char)
    requires
        forall|i: int| 0 <= i < s.len() ==> s[i] != sep,
    ensures
        field_len(s, sep) == s.len(),
    decreases s.len(),
{
    if s.len() > 0 {
        lemma_field_len_no_sep(s.drop_first(), sep);
    }
}

/// Whether `s` holds no `.`.
pub open spec fn no_dot(s: Seq<char>) -> bool {
    forall|i: int| 0 <= i < s.len() ==> s[i] != '.'
}

/// A field without `sep` followed by more text: the field's length is its own.
proof fn lemma_field_len_concat(z: Seq<char>, r: Seq<char>, sep: char)
    requires
        forall|i: int| 0 <= i < z.len() ==> z[i] != sep,
        r.len() > 0,
        r[0] == sep,
    ensures
        field_len(z + r, sep) == z.len(),
    decreases z.len(),
{
    if z.len() > 0 {
        assert((z + r).drop_first() =~= z.drop_first() + r);
        lemma_field_len_concat(z.drop_first(), r, sep);
    } else {
        assert(z + r =~= r);
    }
}

/// Leading white space is trimmed within the text before a `.`.
proof fn lemma_trim_start_before_dot(x: Seq<char>, rest: Seq<char>)
    requires
        rest.len() > 0,
        rest[0] == '.',
    ensures
        trim_start(x + rest) == trim_start(x) + rest,
    decreases x.len(),
{
    if x.len() == 0 {
        assert(x + rest =~= rest);
        assert(trim_start(x) + rest =~= rest);
    } else {
        assert((x + rest)[0] == x[0]);
        if is_white_space(x[0]) {
            assert((x + rest).drop_first() =~= x.drop_first() + rest);
            lemma_trim_start_before_dot(x.drop_first(), rest);
        }
    }
}

/// Trailing white space is trimmed within the text after a `.`.
proof fn lemma_trim_end_after_dot(y: Seq<char>, s: Seq<char>)
    requires
        y.len() > 0,
        y.last() == '.',
    ensures
        trim_end(y + s) == y + trim_end(s),
    decreases s.len(),
{
    if s.len() == 0 {
        assert(y + s =~= y);
        assert(y + trim_end(s) =~= y);
    } else {
        assert((y + s).last() == s.last());
        if is_white_space(s.last()) {
            assert((y + s).drop_last() =~= y + s.drop_last());
            lemma_trim_end_after_dot(y, s.drop_last());
        }
    }
}

/// For a token `h.p.s` whose first two parts hold no `.`, the payload text is `p`
/// without its `=` padding, whatever `s` is and whatever scheme or white space
/// surrounds the token.
pub proof fn lemma_payload_is_second_part(h: Seq<char>, p: Seq<char>, s: Seq<char>)
    requires
        no_dot(h),
        no_dot(p),
    ensures
        payload_text(h + seq!['.'] + p + seq!['.'] + s) == Some(trim_end_char(p, '=')),
{
    let tail = seq!['.'] + p + seq!['.'] + s;
    let a = h + seq!['.'] + p + seq!['.'] + s;
    assert(a =~= h + tail);
    // The scheme is decided within `h`.
    let hs = strip_bearer(h);
    assert(has_bearer_prefix(a) == has_bearer_prefix(h)) by {
        if h.len() < 7 {
            assert(a[h.len() as int] == '.');
        } else {
            assert(forall|i: int| 0 <= i < 7 ==> a[i] == h[i]);
        }
    }
    assert(strip_bearer(a) =~= hs + tail);
    assert(no_dot(hs));
    // Trimming touches neither the payload part nor the dots around it.
    lemma_trim_start_before_dot(hs, tail);
    let ts = trim_start(hs);
    let y = ts + seq!['.'] + p + seq!['.'];
    assert(ts + tail =~= y + s);
    lemma_trim_end_after_dot(y, s);
    let t = y + trim_end(s);
    assert(trim(strip_bearer(a)) == t);
    // `ts` holds no `.`: it is a suffix of `hs`.
    assert(no_dot(ts)) by {
        lemma_trim_start_suffix(hs);
    }
    let rest0 = seq!['.'] + p + seq!['.'] + trim_end(s);
    assert(t =~= ts + rest0);
    lemma_field_len_concat(ts, rest0, '.');
    let rest = t.skip(ts.len() + 1 as int);
    let r2 = seq!['.'] + trim_end(s);
    assert(rest =~= p + r2);
    lemma_field_len_concat(p, r2, '.');
    assert(rest.take(p.len() as int) =~= p);
}

/// `trim_start(s)` is a suffix of `s`.
proof fn lemma_trim_start_suffix(s: Seq<char>)
    ensures
        trim_start(s).len() <= s.len(),
        trim_start(s) == s.skip(s.len() - trim_start(s).len()),
    decreases s.len(),
{
    if s.len() > 0 && is_white_space(s[0]) {
        lemma_trim_start_suffix(s.drop_first());
        assert(s.drop_first().skip(s.drop_first().len() - trim_start(s).len()) =~= s.skip(
            s.len() - trim_start(s).len(),
        ));
    } else {
        assert(s.skip(0) =~= s);
    }
}

/// The claim read from a token does not depend on the token's third part, its
/// signature: two tokens that agree up to their second `.` give the same claim.
pub proof fn lemma_claim_ignores_signature(
    h: Seq<char>,
    p: Seq<char>,
    sig1: Seq<char>,
    sig2: Seq<char>,
    claim: Seq<char>,
)
    requires
        no_dot(h),
        no_dot(p),
    ensures
        claim_of(h + seq!['.'] + p + seq!['.'] + sig1, claim) == claim_of(
            h + seq!['.'] + p + seq!['.'] + sig2,
            claim,
        ),
{
    lemma_payload_is_second_part(h, p, sig1);
    lemma_payload_is_second_part(h, p, sig2);
}

} // verus!
