//! The at-rest framing of a credential: a self-delimiting byte layout
//! that the cipher seals.
//!
//! Each of the three optional fields is framed as one tag byte (0 absent,
//! 1 present) followed, when present, by the UTF-8 byte length as eight
//! little-endian bytes and the UTF-8 bytes themselves. Decoding is
//! strict: every byte must be accounted for, and decoding what encoding
//! produced returns the original credential.

use vstd::prelude::*;

use vstd::bytes::lemma_auto_spec_u64_to_from_le_bytes;
use vstd::bytes::spec_u64_from_le_bytes;
use vstd::bytes::spec_u64_to_le_bytes;
use vstd::bytes::u64_from_le_bytes;
use vstd::bytes::u64_to_le_bytes;
use vstd::slice::slice_subrange;
use vstd::slice::slice_to_vec;
use vstd::string::StrSliceExecFns;
use vstd::utf8::decode_utf8;
use vstd::utf8::encode_utf8;
use vstd::utf8::encode_utf8_decode_utf8;
use vstd::utf8::encode_utf8_valid_utf8;
use vstd::utf8::valid_utf8;

use crate::error::QuonitorError;
use crate::models::Credentials;
use crate::models::CredentialsView;
use crate::models::view_opt_string;

verus! {

/// The framing of one optional text field.
pub open spec fn spec_encode_opt_str(o: Option<Seq<char>>) -> Seq<u8> {
    match o {
        None => seq![0u8],
        Some(s) => seq![1u8] + spec_u64_to_le_bytes(encode_utf8(s).len() as u64) + encode_utf8(s),
    }
}

/// The framing of a whole credential: its three fields in order.
pub open spec fn spec_encode_credentials(c: CredentialsView) -> Seq<u8> {
    spec_encode_opt_str(c.api_key) + spec_encode_opt_str(c.oauth_token) + spec_encode_opt_str(
        c.oauth_refresh_token,
    )
}

/// What parsing one field off the front of `b` yields: the field and how
/// many bytes it took, or nothing when the framing is broken.
pub open spec fn spec_decode_opt_str(b: Seq<u8>) -> Option<(Option<Seq<char>>, int)> {
    if b.len() < 1 {
        None
    } else if b[0] == 0u8 {
        Some((None, 1))
    } else if b[0] == 1u8 {
        if b.len() < 9 {
            None
        } else {
            let l = spec_u64_from_le_bytes(b.subrange(1, 9)) as int;
            if b.len() < 9 + l {
                None
            } else {
                let bytes = b.subrange(9, 9 + l);
                if valid_utf8(bytes) {
                    Some((Some(decode_utf8(bytes)), 9 + l))
                } else {
                    None
                }
            }
        }
    } else {
        None
    }
}

/// What parsing a whole credential blob yields: three fields that consume
/// exactly the blob, or nothing.
pub open spec fn spec_decode_credentials(b: Seq<u8>) -> Option<CredentialsView> {
    match spec_decode_opt_str(b) {
        None => None,
        Some((api_key, n1)) => match spec_decode_opt_str(b.skip(n1)) {
            None => None,
            Some((oauth_token, n2)) => match spec_decode_opt_str(b.skip(n1).skip(n2)) {
                None => None,
                Some((oauth_refresh_token, n3)) => if n1 + n2 + n3 == b.len() {
                    Some(CredentialsView { api_key, oauth_token, oauth_refresh_token })
                } else {
                    None
                },
            },
        },
    }
}

/// Parsing off the front of an encoded field followed by anything returns
/// that field and consumes exactly its encoding.
proof fn lemma_decode_opt_prefix(o: Option<Seq<char>>, rest: Seq<u8>)
    requires
        o matches Some(s) ==> encode_utf8(s).len() <= u64::MAX,
    ensures
        spec_decode_opt_str(spec_encode_opt_str(o) + rest) == Some(
            (o, spec_encode_opt_str(o).len() as int),
        ),
{
    lemma_auto_spec_u64_to_from_le_bytes();
    let b = spec_encode_opt_str(o) + rest;
    match o {
        None => {
            assert(b[0] == 0u8);
        },
        Some(s) => {
            let bytes = encode_utf8(s);
            let l = bytes.len() as int;
            let lenb = spec_u64_to_le_bytes(bytes.len() as u64);
            assert(lenb.len() == 8);
            assert(b[0] == 1u8);
            assert(b.len() >= 9 + l);
            assert(b.subrange(1, 9) =~= lenb);
            assert(spec_u64_from_le_bytes(b.subrange(1, 9)) as int == l);
            assert(b.subrange(9, 9 + l) =~= bytes);
            encode_utf8_valid_utf8(s);
            encode_utf8_decode_utf8(s);
            assert(spec_encode_opt_str(o).len() == 9 + l);
        },
    }
}

/// Decoding inverts encoding: parsing an encoded credential returns the
/// credential.
proof fn lemma_decode_of_encode(c: CredentialsView)
    requires
        c.api_key matches Some(s) ==> encode_utf8(s).len() <= u64::MAX,
        c.oauth_token matches Some(s) ==> encode_utf8(s).len() <= u64::MAX,
        c.oauth_refresh_token matches Some(s) ==> encode_utf8(s).len() <= u64::MAX,
    ensures
        spec_decode_credentials(spec_encode_credentials(c)) == Some(c),
{
    let e1 = spec_encode_opt_str(c.api_key);
    let e2 = spec_encode_opt_str(c.oauth_token);
    let e3 = spec_encode_opt_str(c.oauth_refresh_token);
    let b = spec_encode_credentials(c);
    assert(b =~= e1 + (e2 + e3));
    lemma_decode_opt_prefix(c.api_key, e2 + e3);
    assert(b.skip(e1.len() as int) =~= e2 + e3);
    lemma_decode_opt_prefix(c.oauth_token, e3);
    assert((e2 + e3).skip(e2.len() as int) =~= e3 + Seq::<u8>::empty());
    lemma_decode_opt_prefix(c.oauth_refresh_token, Seq::<u8>::empty());
    assert((e3 + Seq::<u8>::empty()).len() == e3.len());
    assert(e1.len() + e2.len() + e3.len() == b.len());
}

/// Appends the framing of one optional field.
fn encode_opt_str_into(out: &mut Vec<u8>, o: &Option<String>)
    ensures
        final(out)@ == old(out)@ + spec_encode_opt_str(view_opt_string(*o)),
        *o matches Some(s) ==> encode_utf8(s@).len() <= usize::MAX,
{
    match o {
        None => {
            out.push(0u8);
            proof {
                assert(final(out)@ =~= old(out)@ + spec_encode_opt_str(view_opt_string(*o)));
            }
        },
        Some(s) => {
            let ghost prefix = out@;
            out.push(1u8);
            let bytes = s.as_str().as_bytes_vec();
            let mut len_bytes = u64_to_le_bytes(bytes.len() as u64);
            out.append(&mut len_bytes);
            let mut payload = bytes;
            out.append(&mut payload);
            proof {
                assert(out@ =~= prefix + spec_encode_opt_str(view_opt_string(*o)));
            }
        },
    }
}

/// Frames a credential as bytes. Decoding the result returns exactly the
/// credential: the framing loses nothing.
pub fn encode_credentials(c: &Credentials) -> (r: Vec<u8>)
    ensures
        r@ == spec_encode_credentials(c@),
        spec_decode_credentials(r@) == Some(c@),
{
    let mut out: Vec<u8> = Vec::new();
    encode_opt_str_into(&mut out, &c.api_key);
    encode_opt_str_into(&mut out, &c.oauth_token);
    encode_opt_str_into(&mut out, &c.oauth_refresh_token);
    proof {
        assert(out@ =~= spec_encode_credentials(c@));
        lemma_decode_of_encode(c@);
    }
    out
}

/// Parses one field off `b` at `pos`: the field and the position after
/// it, or `None` exactly when the framing there is broken.
fn decode_opt_str_at(b: &Vec<u8>, pos: usize) -> (r: Option<(Option<String>, usize)>)
    requires
        pos <= b@.len(),
    ensures
        r matches Some((o, newpos)) ==> pos < newpos <= b@.len() && spec_decode_opt_str(
            b@.skip(pos as int),
        ) == Some((view_opt_string(o), newpos - pos)),
        r is None ==> spec_decode_opt_str(b@.skip(pos as int)) is None,
{
    let ghost tail = b@.skip(pos as int);
    let n = b.len();
    if n - pos < 1 {
        return None;
    }
    let tag = b[pos];
    proof {
        assert(tail[0] == b@[pos as int]);
    }
    if tag == 0u8 {
        Some((None, pos + 1))
    } else if tag == 1u8 {
        if n - pos < 9 {
            return None;
        }
        let len_slice = slice_subrange(b.as_slice(), pos + 1, pos + 9);
        proof {
            assert(len_slice@ =~= tail.subrange(1, 9));
        }
        let l = u64_from_le_bytes(len_slice);
        if l > (n - pos - 9) as u64 {
            proof {
                assert(tail.len() < 9 + spec_u64_from_le_bytes(tail.subrange(1, 9)) as int);
            }
            return None;
        }
        let l_usize = l as usize;
        let payload = slice_subrange(b.as_slice(), pos + 9, pos + 9 + l_usize);
        proof {
            assert(payload@ =~= tail.subrange(9, 9 + l as int));
        }
        let payload_vec = slice_to_vec(payload);
        match utf8_to_string(payload_vec) {
            Some(s) => Some((Some(s), pos + 9 + l_usize)),
            None => None,
        }
    } else {
        None
    }
}

/// Relies on `String::from_utf8`: it succeeds exactly on valid UTF-8 and
/// returns its decoding.
#[verifier::external_body]
pub(crate) fn utf8_to_string(bytes: Vec<u8>) -> (r: Option<String>)
    ensures
        r matches Some(s) ==> valid_utf8(bytes@) && s@ == decode_utf8(bytes@),
        r is None ==> !valid_utf8(bytes@),
{
    String::from_utf8(bytes).ok()
}

/// Parses a credential blob: the credential it frames, or an
/// `Encryption` error exactly when the framing is broken — a blob that
/// did not come out of [`encode_credentials`].
pub fn decode_credentials(b: &Vec<u8>) -> (r: Result<Credentials, QuonitorError>)
    ensures
        r matches Ok(c) ==> spec_decode_credentials(b@) == Some(c@),
        r is Err <==> spec_decode_credentials(b@) is None,
        r matches Err(e) ==> e matches QuonitorError::Encryption(_),
{
    proof {
        assert(b@.skip(0) =~= b@);
    }
    let r1 = decode_opt_str_at(b, 0);
    match r1 {
        None => Err(QuonitorError::Encryption(String::from_str("Malformed credential blob"))),
        Some((api_key, p1)) => {
            let r2 = decode_opt_str_at(b, p1);
            proof {
                assert(b@.skip(p1 as int) =~= b@.skip(0).skip(p1 as int));
            }
            match r2 {
                None => Err(
                    QuonitorError::Encryption(String::from_str("Malformed credential blob")),
                ),
                Some((oauth_token, p2)) => {
                    let r3 = decode_opt_str_at(b, p2);
                    proof {
                        assert(b@.skip(p2 as int) =~= b@.skip(0).skip(p1 as int).skip(
                            (p2 - p1) as int,
                        ));
                    }
                    match r3 {
                        None => Err(
                            QuonitorError::Encryption(
                                String::from_str("Malformed credential blob"),
                            ),
                        ),
                        Some((oauth_refresh_token, p3)) => {
                            if p3 == b.len() {
                                Ok(Credentials { api_key, oauth_token, oauth_refresh_token })
                            } else {
                                Err(
                                    QuonitorError::Encryption(
                                        String::from_str("Malformed credential blob"),
                                    ),
                                )
                            }
                        },
                    }
                },
            }
        },
    }
}

} // verus!
