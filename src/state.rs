//! The record-state token that a trigger carries while it records: a flag and
//! the identifier of its processor, laid out as bytes and wrapped in base64.
use crate::handles::Ptr;
use vstd::prelude::*;

verus! {

/// What a trigger remembers about its recording.
#[derive(Clone, Copy, Debug, PartialEq, Eq, Structural)]
pub struct RecordState {
    pub is_recording: bool,
    pub processing_node: Ptr,
}

/// Why a token could not be read back.
#[derive(Clone, Copy, Debug, PartialEq, Eq, Structural)]
pub enum TokenError {
    /// The text is not base64.
    NotBase64,
    /// The bytes are not a flag byte followed by an eight-byte identifier.
    BadLayout,
}

/// The eight little-endian bytes of `n`.
pub open spec fn le_bytes(n: u64) -> Seq<u8> {
    seq![
        (n & 0xff) as u8,
        ((n >> 8u64) & 0xff) as u8,
        ((n >> 16u64) & 0xff) as u8,
        ((n >> 24u64) & 0xff) as u8,
        ((n >> 32u64) & 0xff) as u8,
        ((n >> 40u64) & 0xff) as u8,
        ((n >> 48u64) & 0xff) as u8,
        ((n >> 56u64) & 0xff) as u8,
    ]
}

/// The integer whose little-endian bytes start `b` (which has at least eight).
pub open spec fn le_u64(b: Seq<u8>) -> u64 {
    (b[0] as u64) | ((b[1] as u64) << 8u64) | ((b[2] as u64) << 16u64) | ((b[3] as u64)
        << 24u64) | ((b[4] as u64) << 32u64) | ((b[5] as u64) << 40u64) | ((b[6] as u64)
        << 48u64) | ((b[7] as u64) << 56u64)
}

/// Byte layout of a flag and an identifier: the flag as 0 or 1, then the
/// identifier in eight little-endian bytes.
pub open spec fn state_layout(flag: bool, id: u64) -> Seq<u8> {
    seq![if flag { 1u8 } else { 0u8 }] + le_bytes(id)
}

/// Reads a flag and an identifier from the front of `b`; bytes past the
/// ninth are ignored.
pub open spec fn parse_layout(b: Seq<u8>) -> Option<(bool, u64)> {
    if b.len() >= 9 && b[0] <= 1 {
        Some((b[0] == 1, le_u64(b.subrange(1, 9))))
    } else {
        None
    }
}

/// The bytes of a record state.
pub open spec fn state_bytes(r: RecordState) -> Seq<u8> {
    state_layout(r.is_recording, r.processing_node.id)
}

/// The record state held by bytes, if they hold one.
pub open spec fn state_from_bytes(b: Seq<u8>) -> Result<RecordState, TokenError> {
    match parse_layout(b) {
        Some((flag, id)) => Ok(RecordState { is_recording: flag, processing_node: Ptr { id } }),
        None => Err(TokenError::BadLayout),
    }
}

/// The standard base64 alphabet.
pub open spec fn base64_alphabet() -> Seq<char> {
    seq![
        'A', 'B', 'C', 'D', 'E', 'F', 'G', 'H',
        'I', 'J', 'K', 'L', 'M', 'N', 'O', 'P',
        'Q', 'R', 'S', 'T', 'U', 'V', 'W', 'X',
        'Y', 'Z', 'a', 'b', 'c', 'd', 'e', 'f',
        'g', 'h', 'i', 'j', 'k', 'l', 'm', 'n',
        'o', 'p', 'q', 'r', 's', 't', 'u', 'v',
        'w', 'x', 'y', 'z', '0', '1', '2', '3',
        '4', '5', '6', '7', '8', '9', '+', '/',
    ]
}

/// The standard base64 digit for a six-bit value.
pub open spec fn base64_digit(v: u8) -> char {
    base64_alphabet()[v as int]
}

/// Base64 text of `b` in the standard alphabet, with padding: each group of
/// three bytes becomes four digits, and a last group of one or two bytes
/// becomes two or three digits filled up with `=`.
pub open spec fn base64_of(b: Seq<u8>) -> Seq<char>
    decreases b.len(),
{
    if b.len() == 0 {
        Seq::empty()
    } else if b.len() == 1 {
        seq![base64_digit(b[0] >> 2u8), base64_digit((b[0] & 3u8) << 4u8), '=', '=']
    } else if b.len() == 2 {
        seq![
            base64_digit(b[0] >> 2u8),
            base64_digit(((b[0] & 3u8) << 4u8) | (b[1] >> 4u8)),
            base64_digit((b[1] & 15u8) << 2u8),
            '=',
        ]
    } else {
        seq![
            base64_digit(b[0] >> 2u8),
            base64_digit(((b[0] & 3u8) << 4u8) | (b[1] >> 4u8)),
            base64_digit(((b[1] & 15u8) << 2u8) | (b[2] >> 6u8)),
            base64_digit(b[2] & 63u8),
        ] + base64_of(b.subrange(3, b.len() as int))
    }
}

/// Base64 text is four digits for every started group of three bytes.
pub proof fn lemma_base64_len(b: Seq<u8>)
    ensures
        base64_of(b).len() == 4 * ((b.len() + 2) / 3),
    decreases b.len(),
{
    if b.len() >= 3 {
        lemma_base64_len(b.subrange(3, b.len() as int));
    }
}

/// Bytes of the base64 text `s` in the standard alphabet (padding may be
/// left off); `None` where `s` is not such text.
pub uninterp spec fn base64_decoded(s: Seq<char>) -> Option<Seq<u8>>;

/// The token text of a record state.
pub open spec fn token_of(r: RecordState) -> Seq<char> {
    base64_of(state_bytes(r))
}

/// The record state that token text stands for.
pub open spec fn state_from_token(s: Seq<char>) -> Result<RecordState, TokenError> {
    match base64_decoded(s) {
        Some(b) => state_from_bytes(b),
        None => Err(TokenError::NotBase64),
    }
}

/// Relies on bincode::serialize with its default options: a `(bool, u64)` is
/// written as one byte 0 or 1 and then the integer in eight little-endian
/// bytes, and writing into memory does not fail.
#[verifier::external_body]
fn bincode_serialize(flag: bool, id: u64) -> (r: Option<Vec<u8>>)
    ensures
        r is Some,
        r is Some ==> r->0@ == state_layout(flag, id),
{
    bincode::serialize(&(flag, id)).ok()
}

/// Relies on bincode::deserialize with its default options: a `(bool, u64)` is
/// read from a first byte that must be 0 or 1 and eight little-endian bytes
/// after it; too few bytes are an error, trailing bytes are allowed.
#[verifier::external_body]
fn bincode_deserialize(b: &[u8]) -> (r: Option<(bool, u64)>)
    ensures
        r == parse_layout(b@),
{
    bincode::deserialize::<(bool, u64)>(b).ok()
}

/// Relies on base64::encode: the standard alphabet with padding.
#[verifier::external_body]
fn base64_encode(b: &[u8]) -> (r: String)
    requires
        b@.len() < usize::MAX / 2,
    ensures
        r@ == base64_of(b@),
{
    base64::encode(b)
}

/// Relies on base64::decode, the standard alphabet, padding optional: it fails
/// on text that is not base64 and gives back the bytes of any text that
/// base64::encode wrote.
#[verifier::external_body]
fn base64_decode(s: &str) -> (r: Option<Vec<u8>>)
    ensures
        r is Some <==> base64_decoded(s@) is Some,
        r is Some ==> base64_decoded(s@) == Some(r->0@),
        forall|b: Seq<u8>| s@ == #[trigger] base64_of(b) ==> (r is Some && r->0@ == b),
{
    base64::decode(s).ok()
}

/// Reading back the bytes of an identifier gives the identifier.
pub proof fn lemma_le_round_trip(n: u64)
    ensures
        le_u64(le_bytes(n)) == n,
{
    let b = le_bytes(n);
    let b0 = b[0];
    let b1 = b[1];
    let b2 = b[2];
    let b3 = b[3];
    let b4 = b[4];
    let b5 = b[5];
    let b6 = b[6];
    let b7 = b[7];
    assert((b0 as u64) | ((b1 as u64) << 8u64) | ((b2 as u64) << 16u64) | ((b3 as u64) << 24u64)
        | ((b4 as u64) << 32u64) | ((b5 as u64) << 40u64) | ((b6 as u64) << 48u64) | ((b7 as u64)
        << 56u64) == n) by (bit_vector)
        requires
            b0 == (n & 0xff) as u8,
            b1 == ((n >> 8u64) & 0xff) as u8,
            b2 == ((n >> 16u64) & 0xff) as u8,
            b3 == ((n >> 24u64) & 0xff) as u8,
            b4 == ((n >> 32u64) & 0xff) as u8,
            b5 == ((n >> 40u64) & 0xff) as u8,
            b6 == ((n >> 48u64) & 0xff) as u8,
            b7 == ((n >> 56u64) & 0xff) as u8,
    ;
}

/// The bytes of a record state read back as that record state.
pub proof fn lemma_state_bytes_round_trip(r: RecordState)
    ensures
        state_from_bytes(state_bytes(r)) == Ok::<RecordState, TokenError>(r),
{
    let b = state_bytes(r);
    lemma_le_round_trip(r.processing_node.id);
    assert(b.subrange(1, 9) =~= le_bytes(r.processing_node.id));
}

impl RecordState {
    /// The bytes of this record state: the flag, then the identifier.
    pub fn to_bytes(&self) -> (r: Vec<u8>)
        ensures
            r@ == state_bytes(*self),
            r@.len() == 9,
    {
        match bincode_serialize(self.is_recording, self.processing_node.id) {
            Some(v) => v,
            None => Vec::new(),
        }
    }

    /// The record state that `b` holds, or `BadLayout`.
    pub fn from_bytes(b: &[u8]) -> (r: Result<RecordState, TokenError>)
        ensures
            r == state_from_bytes(b@),
    {
        match bincode_deserialize(b) {
            Some((flag, id)) => Ok(RecordState { is_recording: flag, processing_node: Ptr { id } }),
            None => Err(TokenError::BadLayout),
        }
    }

    /// The token text of this record state; reading it back with
    /// [`RecordState::from_string`] gives this record state.
    pub fn to_string(&self) -> (r: String)
        ensures
            r@ == token_of(*self),
            r@.len() == 12,
    {
        let bytes = self.to_bytes();
        proof {
            lemma_base64_len(bytes@);
        }
        base64_encode(bytes.as_slice())
    }

    /// The record state that token text stands for. Every text written by
    /// [`RecordState::to_string`] reads back as the record state it was written from.
    pub fn from_string(s: &str) -> (r: Result<RecordState, TokenError>)
        ensures
            r == state_from_token(s@),
            forall|x: RecordState| s@ == #[trigger] token_of(x) ==> r == Ok::<RecordState, TokenError>(x),
    {
        let decoded = base64_decode(s);
        proof {
            assert forall|x: RecordState| s@ == #[trigger] token_of(x) implies state_from_token(s@)
                == Ok::<RecordState, TokenError>(x) by {
                lemma_state_bytes_round_trip(x);
            }
        }
        match decoded {
            Some(bytes) => RecordState::from_bytes(bytes.as_slice()),
            None => Err(TokenError::NotBase64),
        }
    }
}

} // verus!
