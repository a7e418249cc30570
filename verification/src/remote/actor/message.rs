//! What travels between the actors of the remote layer.

use vstd::prelude::*;
use tokio::sync::oneshot::Sender;
use uuid::Uuid;

verus! {

/// Correlates a request sent to another node with its answer. It is the
/// 128-bit value of a UUID.
pub type RequestId = u128;

/// `16` to the power `i`.
pub open spec fn pow16(i: nat) -> nat
    decreases i,
{
    if i == 0 {
        1
    } else {
        16 * pow16((i - 1) as nat)
    }
}

/// The lower-case hexadecimal digit for `value`, which is below 16.
pub open spec fn hex_digit(value: nat) -> char {
    if value < 10 {
        ((48 + value) as u8) as char
    } else {
        ((87 + value) as u8) as char
    }
}

/// The character at position `i` of the text form of the UUID with the
/// value `id`: a hyphen at positions 8, 13, 18 and 23, and otherwise the
/// next hexadecimal digit of `id`, the most significant first.
pub open spec fn uuid_char(id: u128, i: int) -> char {
    if i == 8 || i == 13 || i == 18 || i == 23 {
        '-'
    } else {
        let hyphens: int = if i > 23 {
            4
        } else if i > 18 {
            3
        } else if i > 13 {
            2
        } else if i > 8 {
            1
        } else {
            0
        };
        hex_digit(((id as nat) / pow16((31 - (i - hyphens)) as nat)) % 16)
    }
}

/// The text form of the UUID with the value `id`: 36 characters, the 32
/// lower-case hexadecimal digits of `id` in groups of 8, 4, 4, 4 and 12 with
/// hyphens between the groups.
pub open spec fn uuid_text(id: u128) -> Seq<char> {
    Seq::new(36, |i: int| uuid_char(id, i))
}

/// The value of the UUID that `text` denotes, where it denotes one.
pub uninterp spec fn uuid_parse(text: Seq<char>) -> Option<u128>;

/// Whether `id` is the value of a random (version 4) UUID: of its 32
/// hexadecimal digits, the thirteenth is 4 and the seventeenth is 8, 9, a
/// or b.
pub open spec fn is_random_uuid(id: u128) -> bool {
    &&& ((id as nat) / pow16(19)) % 16 == 4
    &&& 8 <= ((id as nat) / pow16(15)) % 16 <= 11
}

/// Calls `Uuid::new_v4` and takes the value of the result with `as_u128`.
/// The value is random but for the bits that mark it as a version 4 UUID of
/// the RFC 4122 variant, which `new_v4` sets. `new_v4` panics where the
/// operating system gives it no random bytes.
#[verifier::external_body]
pub(crate) fn fresh_request_id() -> (id: RequestId)
    ensures
        is_random_uuid(id),
{
    Uuid::new_v4().as_u128()
}

/// Calls `to_string` on the `Uuid` made by `Uuid::from_u128(id)`. The
/// result is the hyphenated lower-case text form, which `Uuid::parse_str`
/// reads back as the same value.
#[verifier::external_body]
pub(crate) fn request_id_text(id: RequestId) -> (text: String)
    ensures
        text@ == uuid_text(id),
        uuid_parse(text@) == Some(id),
{
    Uuid::from_u128(id).to_string()
}

/// Calls `Uuid::parse_str`, which accepts the simple, hyphenated, URN and
/// braced forms in either case, and gives the value of the UUID read, as
/// `as_u128` returns it.
#[verifier::external_body]
pub(crate) fn parse_request_id(text: &str) -> (id: Option<RequestId>)
    ensures
        id == uuid_parse(text@),
{
    match Uuid::parse_str(text) {
        Ok(uuid) => Some(uuid.as_u128()),
        Err(_) => None,
    }
}

/// A fresh identifier for a request: the value of a random UUID.
pub fn new_request_id() -> (id: RequestId)
    ensures
        is_random_uuid(id),
{
    fresh_request_id()
}

/// The answer of another node to a request.
#[derive(Debug, Clone, PartialEq, Eq)]
pub enum RemoteResponse {
    /// The request was carried out; the bytes are its encoded result.
    Success(Vec<u8>),
    /// The request failed; the bytes are the encoded error.
    Failure(Vec<u8>),
}

impl RemoteResponse {
    pub open spec fn is_ok_spec(&self) -> bool {
        self is Success
    }

    pub fn is_ok(&self) -> (ok: bool)
        ensures
            ok == self.is_ok_spec(),
    {
        match self {
            RemoteResponse::Success(_) => true,
            RemoteResponse::Failure(_) => false,
        }
    }

    /// The payload, as a result.
    pub fn into_result(self) -> (r: Result<Vec<u8>, Vec<u8>>)
        ensures
            r == (match self {
                RemoteResponse::Success(bytes) => Ok::<Vec<u8>, Vec<u8>>(bytes),
                RemoteResponse::Failure(bytes) => Err::<Vec<u8>, Vec<u8>>(bytes),
            }),
    {
        match self {
            RemoteResponse::Success(bytes) => Ok(bytes),
            RemoteResponse::Failure(bytes) => Err(bytes),
        }
    }
}

/// A request that waits for its answer: the sink the answer goes to.
#[derive(Debug)]
pub struct RemoteRequest {
    pub res_tx: Sender<RemoteResponse>,
}

} // verus!
