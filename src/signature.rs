//! Authentication of webhook deliveries: an HMAC-SHA256 of the raw body under
//! the shared signing secret, sent as hex in a header.
use vstd::prelude::*;
use vstd::utf8::encode_utf8;
use vstd::string::StringSliceAdditionalSpecFns;
use hmac::Mac;
use crate::text::{chars_of, string_of};

verus! {

/// The HMAC-SHA256 tag of `msg` under `key`.
pub uninterp spec fn hmac_sha256_of(key: Seq<u8>, msg: Seq<u8>) -> Seq<u8>;

/// Relies on `hmac::Hmac::<sha2::Sha256>`: `new_from_slice`, `update` and
/// `finalize` compute the tag of `msg` under `key`. `new_from_slice` accepts a
/// key of any length (it hashes or pads it), so the result is always present.
#[verifier::external_body]
fn hmac_sha256(key: &[u8], msg: &[u8]) -> (r: Option<Vec<u8>>)
    ensures
        r is Some,
        r matches Some(t) ==> t@ == hmac_sha256_of(key@, msg@) && t@.len() == 32,
{
    match hmac::Hmac::<sha2::Sha256>::new_from_slice(key) {
        Ok(mut mac) => {
            mac.update(msg);
            Some(mac.finalize().into_bytes().to_vec())
        },
        Err(_) => None,
    }
}

/// The value of one hexadecimal digit, or -1.
pub open spec fn hex_val(b: u8) -> int {
    if 48 <= b <= 57 {
        b - 48
    } else if 97 <= b <= 102 {
        b - 87
    } else if 65 <= b <= 70 {
        b - 55
    } else {
        -1
    }
}

/// The bytes written by the hex digits `s`, two digits a byte, the high
/// nibble first; none if the length is odd or a byte is not a hex digit.
pub open spec fn hex_decoded(s: Seq<u8>) -> Option<Seq<u8>> {
    if s.len() % 2 == 0 && forall|i: int| 0 <= i < s.len() ==> hex_val(#[trigger] s[i]) >= 0 {
        Some(Seq::new((s.len() / 2) as nat, |i: int| (hex_val(s[2 * i]) * 16 + hex_val(s[2 * i + 1])) as u8))
    } else {
        None
    }
}

/// Relies on `hex::decode`: upper- and lower-case digits, an error on odd
/// length or on any other byte.
#[verifier::external_body]
fn hex_decode(s: &str) -> (r: Option<Vec<u8>>)
    ensures
        match r {
            Some(v) => hex_decoded(s.spec_bytes()) == Some(v@),
            None => hex_decoded(s.spec_bytes()) is None,
        },
{
    hex::decode(s).ok()
}

/// Relies on `constant_time_eq::constant_time_eq`: equal lengths and equal
/// bytes, compared in time that does not depend on where they differ.
pub assume_specification[ constant_time_eq::constant_time_eq ](a: &[u8], b: &[u8]) -> (r: bool)
    ensures
        r == (a@ == b@),
;

pub open spec fn sig_prefix() -> Seq<char> {
    seq!['s', 'h', 'a', '2', '5', '6', '=']
}

/// The header value without its optional `sha256=` prefix.
pub open spec fn strip_sig_prefix(h: Seq<char>) -> Seq<char> {
    if h.len() >= 7 && h.take(7) == sig_prefix() {
        h.skip(7)
    } else {
        h
    }
}

/// Whether the signature header `header` authenticates `body` under `secret`.
pub open spec fn signature_valid(header: Option<Seq<char>>, body: Seq<u8>, secret: Seq<char>) -> bool {
    match header {
        None => false,
        Some(h) => match hex_decoded(encode_utf8(strip_sig_prefix(h))) {
            None => false,
            Some(expected) => expected == hmac_sha256_of(encode_utf8(secret), body),
        },
    }
}

pub open spec fn opt_view(s: Option<&str>) -> Option<Seq<char>> {
    match s {
        Some(v) => Some(v@),
        None => None,
    }
}

/// Checks the signature header of a delivery (`sha256=<hex>` or bare hex)
/// against the HMAC-SHA256 of `body` under `secret`, comparing in constant
/// time. A missing header or one that is not hex fails.
pub fn verify_signature(header: Option<&str>, body: &[u8], secret: &str) -> (r: bool)
    ensures
        r == signature_valid(opt_view(header), body@, secret@),
{
    let h = match header {
        Some(h) => h,
        None => return false,
    };
    let cs = chars_of(h);
    let mut start: usize = 0;
    if cs.len() >= 7 && cs[0] == 's' && cs[1] == 'h' && cs[2] == 'a' && cs[3] == '2' && cs[4] == '5'
        && cs[5] == '6' && cs[6] == '=' {
        start = 7;
        assert(cs@.take(7) =~= sig_prefix());
    } else {
        proof {
            if cs@.len() >= 7 && cs@.take(7) == sig_prefix() {
                assert(cs@[0] == cs@.take(7)[0] && cs@[6] == cs@.take(7)[6]);
                assert(cs@[1] == cs@.take(7)[1] && cs@[2] == cs@.take(7)[2]);
                assert(cs@[3] == cs@.take(7)[3] && cs@[4] == cs@.take(7)[4] && cs@[5] == cs@.take(7)[5]);
            }
        }
    }
    let rest = crate::text::slice_chars(cs.as_slice(), start, cs.len());
    let hex_text = string_of(rest.as_slice());
    assert(hex_text@ == strip_sig_prefix(h@)) by {
        if start == 0 {
            assert(rest@ =~= cs@);
        }
    }
    let expected = match hex_decode(hex_text.as_str()) {
        Some(v) => v,
        None => return false,
    };
    let computed = match hmac_sha256(secret.as_bytes(), body) {
        Some(t) => t,
        None => return false,
    };
    expected.len() == computed.len() && constant_time_eq::constant_time_eq(computed.as_slice(), expected.as_slice())
}

/// A delivery whose signature is accepted carries exactly the tag of its
/// own body: any other body, a single changed byte included, is refused
/// unless its tag is the same.
pub proof fn lemma_accepted_signature_matches_body(header: Seq<char>, body: Seq<u8>, other: Seq<u8>, secret: Seq<char>)
    requires
        signature_valid(Some(header), body, secret),
        hmac_sha256_of(encode_utf8(secret), other) != hmac_sha256_of(encode_utf8(secret), body),
    ensures
        !signature_valid(Some(header), other, secret),
{
}

} // verus!
