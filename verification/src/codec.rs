//! The encoded-argument framing of service calls.
//!
//! A service call's payload is the encoded service name, the encoded method
//! name and the caller's encoded arguments, concatenated.  The encoding of a
//! string is taken from the SCALE codec crate and named rather than spelled
//! out; the framing around it is verified.

use vstd::prelude::*;
use crate::ids::append_bytes;

verus! {

/// The SCALE encoding of a string: its UTF-8 bytes behind a compact length
/// prefix, a function of the characters alone.  The codec can only encode
/// strings of at most `u32::MAX` UTF-8 bytes; for longer ones this name
/// stands for no realizable byte string.
pub uninterp spec fn string_scale_bytes(s: Seq<char>) -> Seq<u8>;

/// A string the codec can encode: its UTF-8 form fits a compact length.
pub open spec fn scale_encodable(s: Seq<char>) -> bool {
    vstd::utf8::encode_utf8(s).len() <= u32::MAX
}

/// Relies on `parity_scale_codec::Encode` for `str`: the encoding is the
/// string's UTF-8 bytes behind the canonical compact length prefix, a
/// function of the characters alone.  The codec refuses lengths beyond
/// `u32::MAX` by panicking, so such strings are excluded here.
#[verifier::external_body]
pub fn scale_encode_string(s: &String) -> (r: Vec<u8>)
    requires
        scale_encodable(s@),
    ensures
        r@ == string_scale_bytes(s@),
{
    parity_scale_codec::Encode::encode(s.as_str())
}

/// Relies on `parity_scale_codec::Decode` for `String`: on success the bytes
/// consumed are exactly the canonical SCALE encoding of the returned string
/// (the compact length prefix is rejected unless minimal, the body unless
/// valid UTF-8), the unread remainder is handed back, and the parse is
/// deterministic; on failure no split of the input into such an encoding and
/// a remainder exists.
#[verifier::external_body]
pub fn scale_decode_string_prefix(bytes: &Vec<u8>) -> (r: Option<(String, Vec<u8>)>)
    ensures
        (r matches Some((s, rest)) ==> bytes@ == string_scale_bytes(s@) + rest@),
        (r matches Some((s, rest)) ==> forall|s2: Seq<char>, rest2: Seq<u8>|
            bytes@ == string_scale_bytes(s2) + rest2 ==> s2 == s@ && rest2 == rest@),
        (r is None ==> forall|s2: Seq<char>, rest2: Seq<u8>|
            bytes@ != string_scale_bytes(s2) + rest2),
{
    let mut input: &[u8] = bytes.as_slice();
    match <String as parity_scale_codec::Decode>::decode(&mut input) {
        Ok(s) => Some((s, input.to_vec())),
        Err(_) => None,
    }
}

/// The payload of a service call: encoded service name, encoded method name,
/// then the caller's already-encoded arguments.
pub open spec fn service_call_payload(service: Seq<char>, method: Seq<char>, args: Seq<u8>) -> Seq<
    u8,
> {
    string_scale_bytes(service) + string_scale_bytes(method) + args
}

/// Builds the payload of a service call.
pub fn compose_service_payload(service: &String, method: &String, args: &Vec<u8>) -> (r: Vec<u8>)
    requires
        scale_encodable(service@),
        scale_encodable(method@),
    ensures
        r@ == service_call_payload(service@, method@, args@),
{
    let mut r = scale_encode_string(service);
    let encoded_method = scale_encode_string(method);
    append_bytes(&mut r, &encoded_method);
    append_bytes(&mut r, args);
    r
}

/// Splits a reply payload into its service name, method name and the
/// encoded reply value.  `None` exactly when the payload does not start with
/// two encoded strings.
pub fn decode_reply_parts(payload: &Vec<u8>) -> (r: Option<(String, String, Vec<u8>)>)
    ensures
        (r matches Some((svc, meth, rest)) ==> payload@ == service_call_payload(
            svc@,
            meth@,
            rest@,
        )),
        (r matches Some((svc, meth, rest)) ==> forall|s2: Seq<char>, m2: Seq<char>, r2: Seq<u8>|
            payload@ == service_call_payload(s2, m2, r2) ==> s2 == svc@ && m2 == meth@ && r2
                == rest@),
        (r is None ==> forall|svc: Seq<char>, meth: Seq<char>, rest: Seq<u8>|
            payload@ != service_call_payload(svc, meth, rest)),
{
    match scale_decode_string_prefix(payload) {
        Some((svc, tail)) => {
            match scale_decode_string_prefix(&tail) {
                Some((meth, rest)) => {
                    proof {
                        assert(payload@ == string_scale_bytes(svc@) + (string_scale_bytes(meth@)
                            + rest@));
                        assert(string_scale_bytes(svc@) + (string_scale_bytes(meth@) + rest@)
                            =~= service_call_payload(svc@, meth@, rest@));
                        assert forall|s2: Seq<char>, m2: Seq<char>, r2: Seq<u8>|
                            payload@ == service_call_payload(s2, m2, r2) implies s2 == svc@ && m2
                            == meth@ && r2 == rest@ by {
                            assert(payload@ == string_scale_bytes(s2) + (string_scale_bytes(m2)
                                + r2)) by {
                                assert(service_call_payload(s2, m2, r2) =~= string_scale_bytes(s2)
                                    + (string_scale_bytes(m2) + r2));
                            }
                            assert(s2 == svc@ && string_scale_bytes(m2) + r2 == tail@);
                            assert(m2 == meth@ && r2 == rest@);
                        }
                    }
                    Some((svc, meth, rest))
                },
                None => {
                    proof {
                        assert forall|svc2: Seq<char>, meth2: Seq<char>, rest2: Seq<u8>|
                            payload@ != service_call_payload(svc2, meth2, rest2) by {
                            if payload@ == service_call_payload(svc2, meth2, rest2) {
                                assert(payload@ == string_scale_bytes(svc2) + (string_scale_bytes(
                                    meth2,
                                ) + rest2)) by {
                                    assert(service_call_payload(svc2, meth2, rest2)
                                        =~= string_scale_bytes(svc2) + (string_scale_bytes(meth2)
                                        + rest2));
                                }
                                assert(svc2 == svc@ && string_scale_bytes(meth2) + rest2 == tail@);
                                assert(tail@ != string_scale_bytes(meth2) + rest2);
                            }
                        }
                    }
                    None
                },
            }
        },
        None => {
            proof {
                assert forall|svc2: Seq<char>, meth2: Seq<char>, rest2: Seq<u8>|
                    payload@ != service_call_payload(svc2, meth2, rest2) by {
                    if payload@ == service_call_payload(svc2, meth2, rest2) {
                        assert(payload@ == string_scale_bytes(svc2) + (string_scale_bytes(meth2)
                            + rest2)) by {
                            assert(service_call_payload(svc2, meth2, rest2) =~= string_scale_bytes(
                                svc2,
                            ) + (string_scale_bytes(meth2) + rest2));
                        }
                    }
                }
            }
            None
        },
    }
}

/// Whether `needle` occurs as a contiguous run inside `hay`.
pub open spec fn contains_subrange(hay: Seq<u8>, needle: Seq<u8>) -> bool {
    exists|i: int|
        0 <= i && i + needle.len() <= hay.len() && #[trigger] hay.subrange(i, i + needle.len())
            == needle
}

/// True when `needle` occurs as a contiguous run inside `hay`.
pub fn bytes_contain(hay: &Vec<u8>, needle: &Vec<u8>) -> (r: bool)
    ensures
        r == contains_subrange(hay@, needle@),
{
    if needle.len() > hay.len() {
        proof {
            assert(!contains_subrange(hay@, needle@));
        }
        return false;
    }
    if needle.len() == 0 {
        proof {
            assert(hay@.subrange(0, 0 + needle@.len() as int) =~= needle@);
        }
        return true;
    }
    let limit: usize = hay.len() - needle.len();
    let mut i: usize = 0;
    while i <= limit
        invariant
            0 < needle.len() <= hay.len(),
            hay@.len() <= usize::MAX,
            limit == hay.len() - needle.len(),
            i <= limit + 1,
            forall|k: int|
                0 <= k < i ==> #[trigger] hay@.subrange(k, k + needle.len()) != needle@,
        decreases limit + 1 - i,
    {
        if window_matches(hay, needle, i) {
            return true;
        }
        i = i + 1;
    }
    proof {
        assert(!contains_subrange(hay@, needle@));
    }
    false
}

/// True when `needle` matches `hay` starting at `at`.
fn window_matches(hay: &Vec<u8>, needle: &Vec<u8>, at: usize) -> (r: bool)
    requires
        at + needle@.len() <= hay@.len(),
    ensures
        r == (hay@.subrange(at as int, at + needle@.len()) == needle@),
{
    let hay_len: usize = hay.len();
    let mut j: usize = 0;
    while j < needle.len()
        invariant
            at + needle@.len() <= hay@.len(),
            hay@.len() == hay_len,
            j <= needle.len(),
            forall|k: int| 0 <= k < j ==> hay@[at + k] == needle@[k],
        decreases needle.len() - j,
    {
        if hay[at + j] != needle[j] {
            proof {
                assert(hay@.subrange(at as int, at + needle@.len())[j as int] != needle@[j as int]);
            }
            return false;
        }
        j = j + 1;
    }
    proof {
        assert(hay@.subrange(at as int, at + needle@.len()) =~= needle@);
    }
    true
}

} // verus!
