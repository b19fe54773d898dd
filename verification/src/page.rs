//! Opaque pagination cursors. A token is a twelve-byte binary envelope — the
//! cursor's bit pattern in four little-endian bytes, then the issue timestamp
//! in eight — represented as a URL-safe base64 string. Clients must treat the
//! token as uninterpretable; decoding a malformed token is an error, distinct
//! from supplying no token at all.
use vstd::prelude::*;
use vstd::bytes::*;
use vstd::slice::slice_subrange;
use base64::Engine;
use crate::error::Error;

verus! {

/// The query parameters for getting a page of domain objects from a list
/// endpoint.
#[derive(Debug)]
pub struct PageParams {
    pub page_token: Option<String>,
}

/// A page of domain objects, together with the token for the next page, if
/// any.
#[derive(Debug)]
pub struct Page<T> {
    pub next_page: Option<String>,
    pub data: Vec<T>,
}

impl<T> Page<T> {
    /// Create a new page of domain objects.
    pub fn new(next_page: Option<String>, data: Vec<T>) -> (r: Page<T>)
        ensures
            r.next_page == next_page,
            r.data == data,
    {
        Page { next_page, data }
    }
}

/// The two's-complement bit pattern of a cursor id, as an unsigned value.
pub open spec fn id_bits(id: i32) -> u32 {
    if id >= 0 {
        id as u32
    } else {
        (id + 0x1_0000_0000) as u32
    }
}

/// The cursor id whose two's-complement bit pattern is `u`.
pub open spec fn bits_id(u: u32) -> i32 {
    if u < 0x8000_0000 {
        u as i32
    } else {
        (u - 0x1_0000_0000) as i32
    }
}

/// The binary envelope of a page token: the cursor's bit pattern in four
/// little-endian bytes, then the issue timestamp in eight.
pub open spec fn envelope_bytes(id: i32, ts: u64) -> Seq<u8> {
    spec_u32_to_le_bytes(id_bits(id)) + spec_u64_to_le_bytes(ts)
}

/// What parsing a candidate envelope yields: the embedded cursor and
/// timestamp of a well-formed twelve-byte envelope, nothing otherwise.
pub open spec fn parse_envelope(bs: Seq<u8>) -> Option<(i32, u64)> {
    if bs.len() == 12 {
        Some(
            (
                bits_id(spec_u32_from_le_bytes(bs.subrange(0, 4))),
                spec_u64_from_le_bytes(bs.subrange(4, 12)),
            ),
        )
    } else {
        None
    }
}

/// Round-trip law of the token envelope: parsing an envelope built from a
/// cursor and timestamp yields exactly that cursor and timestamp.
pub proof fn lemma_envelope_round_trip(id: i32, ts: u64)
    ensures
        parse_envelope(envelope_bytes(id, ts)) == Some((id, ts)),
{
    lemma_auto_spec_u32_to_from_le_bytes();
    lemma_auto_spec_u64_to_from_le_bytes();
    assert(envelope_bytes(id, ts).subrange(0, 4) =~= spec_u32_to_le_bytes(id_bits(id)));
    assert(envelope_bytes(id, ts).subrange(4, 12) =~= spec_u64_to_le_bytes(ts));
}

/// A well-formed envelope is exactly the serialization of the cursor and
/// timestamp it parses to.
pub proof fn lemma_parse_envelope_inverse(bs: Seq<u8>)
    requires
        bs.len() == 12,
    ensures
        envelope_bytes(
            bits_id(spec_u32_from_le_bytes(bs.subrange(0, 4))),
            spec_u64_from_le_bytes(bs.subrange(4, 12)),
        ) == bs,
{
    lemma_auto_spec_u32_to_from_le_bytes();
    lemma_auto_spec_u64_to_from_le_bytes();
    let u = spec_u32_from_le_bytes(bs.subrange(0, 4));
    assert(id_bits(bits_id(u)) == u);
    assert(envelope_bytes(bits_id(u), spec_u64_from_le_bytes(bs.subrange(4, 12))) =~= bs);
}

/// The URL-safe base64 representation of a byte sequence.
pub uninterp spec fn b64_of(bytes: Seq<u8>) -> Seq<char>;

/// The string is the base64 envelope embedding cursor `id`, issued at some
/// time.
pub open spec fn encodes_cursor(t: Seq<char>, id: i32) -> bool {
    exists|ts: u64| t == b64_of(#[trigger] envelope_bytes(id, ts))
}

/// The string is not a well-formed token: no cursor is embedded in it.
pub open spec fn encodes_no_cursor(t: Seq<char>) -> bool {
    forall|id: i32, ts: u64| t != b64_of(#[trigger] envelope_bytes(id, ts))
}

#[verifier::external_type_specification]
#[verifier::external_body]
pub struct ExDecodeError(base64::DecodeError);

/// Relies on base64's `Engine::encode` with the URL_SAFE engine: the encoding
/// is a pure function of the input bytes.
#[verifier::external_body]
fn b64_encode(bytes: &Vec<u8>) -> (r: String)
    ensures
        r@ == b64_of(bytes@),
{
    base64::engine::general_purpose::URL_SAFE.encode(bytes)
}

/// Relies on base64's `Engine::decode` with the URL_SAFE engine: it requires
/// canonical padding and rejects set trailing bits, so it accepts exactly the
/// canonical encodings and inverts `Engine::encode`.
#[verifier::external_body]
fn b64_decode(token: &str) -> (r: Result<Vec<u8>, base64::DecodeError>)
    ensures
        r matches Ok(v) ==> token@ == b64_of(v@) && (forall|bs: Seq<u8>|
            token@ == #[trigger] b64_of(bs) ==> v@ == bs),
        r is Err ==> forall|bs: Seq<u8>| token@ != #[trigger] b64_of(bs),
{
    base64::engine::general_purpose::URL_SAFE.decode(token)
}

/// Relies on std::time::SystemTime::now: seconds since the Unix epoch,
/// saturating if the system clock reads before the epoch.
#[verifier::external_body]
fn now() -> u64 {
    std::time::SystemTime::now()
        .duration_since(std::time::UNIX_EPOCH)
        .unwrap_or(std::time::Duration::MAX)
        .as_secs()
}

/// A paging token for accessing previous and next pages of domain objects in
/// a list call: an internal cursor and the time the token was issued. The
/// timestamp is carried but not enforced as an expiry; enforcing a TTL is an
/// explicit design option, not current behavior.
pub struct PageToken {
    pub id: i32,
    pub ts: u64,
}

impl PageToken {
    /// Serialize a cursor and an issue timestamp into a token string.
    pub fn encode_at(id: i32, ts: u64) -> (r: String)
        ensures
            r@ == b64_of(envelope_bytes(id, ts)),
    {
        let mut bytes = u32_to_le_bytes(id_to_bits(id));
        let mut tail = u64_to_le_bytes(ts);
        bytes.append(&mut tail);
        proof {
            assert(bytes@ =~= envelope_bytes(id, ts));
        }
        b64_encode(&bytes)
    }

    /// Encode a cursor id as a page token, issued now. A non-positive cursor
    /// signals that there are no further pages and yields no token.
    pub fn encode(id: i32) -> (r: Option<String>)
        ensures
            r is None <==> id <= 0,
            r matches Some(t) ==> encodes_cursor(t@, id),
    {
        if id <= 0 {
            return None;
        }
        let ts = now();
        let t = Self::encode_at(id, ts);
        proof {
            assert(encodes_cursor(t@, id)) by {
                assert(t@ == b64_of(envelope_bytes(id, ts)));
            }
        }
        Some(t)
    }

    /// Deserialize a candidate envelope into a page token.
    pub fn parse(bytes: &Vec<u8>) -> (r: Option<PageToken>)
        ensures
            r matches Some(pt) ==> parse_envelope(bytes@) == Some((pt.id, pt.ts)),
            r is None ==> parse_envelope(bytes@) is None,
    {
        if bytes.len() != 12 {
            return None;
        }
        let head = slice_subrange(bytes.as_slice(), 0, 4);
        let tail = slice_subrange(bytes.as_slice(), 4, 12);
        let u = u32_from_le_bytes(head);
        let ts = u64_from_le_bytes(tail);
        let id = bits_to_id(u);
        Some(PageToken { id, ts })
    }

    /// Extract the cursor from an optional encoded token, falling back to the
    /// default cursor when no token was supplied. A token that is not valid
    /// base64, or whose bytes are not a well-formed envelope, is an
    /// invalid-arguments error — never the default.
    pub fn decode_or(token_opt: &Option<String>, default: i32) -> (r: Result<i32, Error>)
        ensures
            token_opt is None ==> r == Ok::<i32, Error>(default),
            token_opt matches Some(t) ==> (r matches Ok(id) ==> encodes_cursor(t@, id)),
            token_opt matches Some(t) ==> (r matches Ok(id) ==> forall|id2: i32|
                #[trigger] encodes_cursor(t@, id2) ==> id2 == id),
            token_opt matches Some(t) ==> (r matches Err(e) ==> e is InvalidArgs),
            token_opt matches Some(t) ==> (r is Err ==> encodes_no_cursor(t@)),
    {
        match token_opt {
            None => Ok(default),
            Some(token) => Self::decode_token(token),
        }
    }

    /// Decode one supplied token: the embedded cursor for a well-formed
    /// token, an invalid-arguments error for anything else.
    fn decode_token(token: &String) -> (r: Result<i32, Error>)
        ensures
            r matches Ok(id) ==> encodes_cursor(token@, id),
            r matches Ok(id) ==> forall|id2: i32| #[trigger] encodes_cursor(token@, id2) ==> id2
                == id,
            r matches Err(e) ==> e is InvalidArgs,
            r is Err ==> encodes_no_cursor(token@),
    {
        match b64_decode(token.as_str()) {
                    Err(_) => {
                        proof {
                            assert forall|id2: i32, ts2: u64|
                                token@ != b64_of(#[trigger] envelope_bytes(id2, ts2)) by {
                                if token@ == b64_of(envelope_bytes(id2, ts2)) {
                                    assert(false);
                                }
                            }
                            assert(encodes_no_cursor(token@));
                        }
                        Err(Error::invalid_args("invalid page token"))
                    },
                    Ok(bytes) => {
                        match Self::parse(&bytes) {
                            Some(pt) => {
                                proof {
                                    lemma_parse_envelope_inverse(bytes@);
                                    assert(envelope_bytes(pt.id, pt.ts) == bytes@);
                                    assert(token@ == b64_of(envelope_bytes(pt.id, pt.ts)));
                                    assert(encodes_cursor(token@, pt.id));
                                    assert forall|id2: i32| #[trigger] encodes_cursor(token@, id2)
                                        implies id2 == pt.id by {
                                        let ts2 = choose|ts2: u64|
                                            token@ == b64_of(#[trigger] envelope_bytes(id2, ts2));
                                        lemma_envelope_round_trip(id2, ts2);
                                    }
                                }
                                Ok(pt.id)
                            },
                            None => {
                                proof {
                                    assert forall|id2: i32, ts2: u64|
                                        token@ != b64_of(#[trigger] envelope_bytes(id2, ts2)) by {
                                        if token@ == b64_of(envelope_bytes(id2, ts2)) {
                                            lemma_envelope_round_trip(id2, ts2);
                                        }
                                    }
                                    assert(encodes_no_cursor(token@));
                                }
                                Err(Error::invalid_args("invalid page token"))
                            },
                        }
                    },
        }
    }
}

/// Reinterpret a cursor id as its unsigned bit pattern.
fn id_to_bits(id: i32) -> (r: u32)
    ensures
        r == id_bits(id),
{
    if id >= 0 {
        id as u32
    } else {
        (((id as i64) + 0x1_0000_0000i64) as u32)
    }
}

/// Reinterpret an unsigned bit pattern as a cursor id.
fn bits_to_id(u: u32) -> (r: i32)
    ensures
        r == bits_id(u),
{
    if u < 0x8000_0000 {
        u as i32
    } else {
        (((u as i64) - 0x1_0000_0000i64) as i32)
    }
}

} // verus!
