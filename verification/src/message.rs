//! The AUTHENTICATE message, read for what the verifier checks.
//!
//! MS-NLMP 2.2.1.3 lays a type 3 message out as a fixed header of `Len, MaxLen, BufferOffset`
//! fields pointing into a payload: the LM response at 12, the NT response at 20, the domain at
//! 28, the user at 36, the workstation at 44, the session key at 52 and the negotiated flags at
//! 60. An `NTLMv2` NT response is sixteen bytes of `NTProofStr` followed by the client's blob
//! (2.2.2.8), whose first two bytes are both one; a response of exactly twenty-four bytes is
//! `NTLMv1` and is named as such so the refusal can say so.

use crate::bytes;
use crate::refusal::{AuthenticateError, Field, Refusal};
use crate::text;
use vstd::prelude::*;
use vstd::slice::{slice_subrange, slice_to_vec};

verus! {

/// Where the header holds the NT response's field.
pub const NT_RESPONSE_FIELDS: usize = 20;

/// Where the header holds the domain's field.
pub const DOMAIN_FIELDS: usize = 28;

/// Where the header holds the user's field.
pub const USER_FIELDS: usize = 36;

/// Where the header holds the session key's field.
pub const SESSION_KEY_FIELDS: usize = 52;

/// Where the header holds the negotiated flags.
pub const FLAGS: usize = 60;

/// The flag that says names are UTF-16.
pub const NEGOTIATE_UNICODE: u32 = 0x0000_0001;

/// The flag that says the client sends its own session key.
pub const NEGOTIATE_KEY_EXCH: u32 = 0x4000_0000;

/// How long the `NTProofStr` is.
pub const PROOF_LENGTH: usize = 16;

/// Where a message that carries a MIC carries it.
pub const MIC_OFFSET: usize = 72;

/// How long a MIC is.
pub const MIC_LENGTH: usize = 16;

/// The eight bytes every NTLM message begins with: `NTLMSSP` and a zero.
pub open spec fn signature() -> Seq<u8> {
    seq![0x4E, 0x54, 0x4C, 0x4D, 0x53, 0x53, 0x50, 0x00]
}

/// Whether `bytes` begin as an NTLM message does.
pub open spec fn is_signed(bytes: Seq<u8>) -> bool {
    signature().is_prefix_of(bytes)
}

/// The sixteen-bit number at `at`, low byte first.
pub open spec fn le16_at(bytes: Seq<u8>, at: int) -> Option<u16> {
    if at + 2 <= bytes.len() {
        Some((bytes[at] + 0x100 * bytes[at + 1]) as u16)
    } else {
        None
    }
}

/// The thirty-two-bit number at `at`, low byte first.
pub open spec fn le32_at(bytes: Seq<u8>, at: int) -> Option<u32> {
    if at + 4 <= bytes.len() {
        Some(
            (bytes[at] + 0x100 * bytes[at + 1] + 0x1_0000 * bytes[at + 2] + 0x100_0000 * bytes[at
                + 3]) as u32,
        )
    } else {
        None
    }
}

/// The bytes that the field at `at` points at, where the message holds the field and them.
pub open spec fn pointed_at(bytes: Seq<u8>, at: int) -> Option<Seq<u8>> {
    match (le16_at(bytes, at), le32_at(bytes, at + 4)) {
        (Some(length), Some(offset)) => if offset + length <= bytes.len() {
            Some(bytes.subrange(offset as int, offset + length))
        } else {
            None
        },
        _ => None,
    }
}

/// The bytes of the field `named`, whose place is at `at`, or why there are none.
pub open spec fn field_bytes(bytes: Seq<u8>, at: int, named: Field) -> Result<
    Seq<u8>,
    Refusal<Seq<char>>,
> {
    if at + 8 > bytes.len() {
        Err(Refusal::TruncatedBeforeField { field: named })
    } else {
        match pointed_at(bytes, at) {
            Some(payload) => Ok(payload),
            None => Err(Refusal::FieldOutside { field: named }),
        }
    }
}

/// The text that the payload of the field `named` is, or why it is none.
pub open spec fn payload_text(payload: Seq<u8>, unicode: bool, named: Field) -> Result<
    Seq<char>,
    Refusal<Seq<char>>,
> {
    if !unicode {
        Ok(text::latin1_text(payload))
    } else {
        match text::utf16_text(text::byte_units(payload)) {
            Some(name) => Ok(name),
            None => Err(Refusal::NotUtf16 { field: named }),
        }
    }
}

/// The text of the field `named`, whose place is at `at`, or why there is none.
pub open spec fn field_text(bytes: Seq<u8>, at: int, unicode: bool, named: Field) -> Result<
    Seq<char>,
    Refusal<Seq<char>>,
> {
    match field_bytes(bytes, at, named) {
        Err(why) => Err(why),
        Ok(payload) => payload_text(payload, unicode, named),
    }
}

/// Whether a blob is an `NTLMv2` client challenge, as far as its head and its length say.
pub open spec fn is_client_challenge(blob: Seq<u8>) -> bool {
    blob.len() >= 28 && blob[0] == 1 && blob[1] == 1
}

/// What a type 3 message carries that the response is computed from.
pub struct AuthenticateView {
    pub user: Seq<char>,
    pub domain: Seq<char>,
    pub proof: Seq<u8>,
    pub blob: Seq<u8>,
    pub flags: u32,
    pub session_key: Seq<u8>,
}

/// What `bytes` are read into as a type 3 message, or why they are not one.
pub open spec fn parsed(bytes: Seq<u8>) -> Result<AuthenticateView, Refusal<Seq<char>>> {
    if !is_signed(bytes) {
        Err(Refusal::NoSignature)
    } else if le32_at(bytes, 8) != Some(3u32) {
        Err(Refusal::NotAuthenticate)
    } else {
        match le32_at(bytes, FLAGS as int) {
            None => Err(Refusal::TruncatedBeforeFlags),
            Some(flags) => match field_bytes(
                bytes,
                NT_RESPONSE_FIELDS as int,
                Field::NtChallengeResponse,
            ) {
                Err(why) => Err(why),
                Ok(response) => parsed_with(bytes, flags, response),
            },
        }
    }
}

/// What a type 3 message with these flags and this NT response is read into, or why it is refused.
pub open spec fn parsed_with(bytes: Seq<u8>, flags: u32, response: Seq<u8>) -> Result<
    AuthenticateView,
    Refusal<Seq<char>>,
> {
    let unicode = flags & NEGOTIATE_UNICODE != 0;
    let user = field_text(bytes, USER_FIELDS as int, unicode, Field::UserName);
    let domain = field_text(bytes, DOMAIN_FIELDS as int, unicode, Field::DomainName);
    if response.len() == 24 {
        Err(Refusal::NtlmV1)
    } else if response.len() < PROOF_LENGTH {
        Err(Refusal::NoNtlmV2)
    } else if !is_client_challenge(response.skip(PROOF_LENGTH as int)) {
        Err(Refusal::NotClientChallenge)
    } else {
        match (user, domain) {
            (Err(why), _) => Err(why),
            (_, Err(why)) => Err(why),
            (Ok(user), Ok(domain)) => Ok(
                AuthenticateView {
                    user,
                    domain,
                    proof: response.take(PROOF_LENGTH as int),
                    blob: response.skip(PROOF_LENGTH as int),
                    flags,
                    session_key: match pointed_at(bytes, SESSION_KEY_FIELDS as int) {
                        Some(key) => key,
                        None => seq![],
                    },
                },
            ),
        }
    }
}

/// The MIC that a message is long enough to carry.
pub open spec fn mic_of(bytes: Seq<u8>) -> Option<Seq<u8>> {
    if bytes.len() >= MIC_OFFSET + MIC_LENGTH {
        Some(bytes.subrange(MIC_OFFSET as int, MIC_OFFSET + MIC_LENGTH))
    } else {
        None
    }
}

/// What a type 3 message carries that the response is computed from.
#[derive(Clone, Debug, PartialEq, Eq)]
pub struct Authenticate {
    /// The `UserName` field, as the client spelled it.
    pub user: String,
    /// The `DomainName` field, as the client spelled it; it enters the hash exactly so.
    pub domain: String,
    /// The first sixteen bytes of the NT response: the `NTProofStr`.
    pub proof: [u8; 16],
    /// The rest of the NT response: the client's blob, which the proof covers.
    pub blob: Vec<u8>,
    /// The flags the two ends negotiated.
    pub flags: u32,
    /// The `EncryptedRandomSessionKey`, empty where the message holds none.
    pub session_key: Vec<u8>,
}

impl View for Authenticate {
    type V = AuthenticateView;

    open spec fn view(&self) -> AuthenticateView {
        AuthenticateView {
            user: self.user@,
            domain: self.domain@,
            proof: self.proof@,
            blob: self.blob@,
            flags: self.flags,
            session_key: self.session_key@,
        }
    }
}

impl Authenticate {
    /// Read a type 3 message.
    ///
    /// # Errors
    ///
    /// Where the bytes are not an NTLMSSP AUTHENTICATE message, a field points outside the
    /// message, or the NT response is not `NTLMv2`.
    pub fn parse(bytes: &[u8]) -> (read: Result<Self, AuthenticateError>)
        ensures
            match read {
                Ok(message) => parsed(bytes@) == Ok::<_, Refusal<Seq<char>>>(message@),
                Err(why) => parsed(bytes@) == Err::<AuthenticateView, _>(why@),
            },
    {
        if !signed(bytes) {
            return Err(Refusal::NoSignature);
        }
        if u32_at(bytes, 8) != Some(3u32) {
            return Err(Refusal::NotAuthenticate);
        }
        let flags = match u32_at(bytes, FLAGS) {
            Some(flags) => flags,
            None => { return Err(Refusal::TruncatedBeforeFlags) },
        };
        let unicode = flags & NEGOTIATE_UNICODE != 0;

        let response = field(bytes, NT_RESPONSE_FIELDS, Field::NtChallengeResponse)?;
        if response.len() == 24 {
            return Err(Refusal::NtlmV1);
        }
        if response.len() < PROOF_LENGTH {
            return Err(Refusal::NoNtlmV2);
        }
        let blob = slice_subrange(response, PROOF_LENGTH, response.len());
        if blob.len() < 28 || blob[0] != 1 || blob[1] != 1 {
            return Err(Refusal::NotClientChallenge);
        }
        let user = text(field(bytes, USER_FIELDS, Field::UserName)?, unicode, Field::UserName)?;
        let domain = text(
            field(bytes, DOMAIN_FIELDS, Field::DomainName)?,
            unicode,
            Field::DomainName,
        )?;
        let session_key = match pointed(bytes, SESSION_KEY_FIELDS) {
            Some(key) => slice_to_vec(key),
            None => Vec::new(),
        };
        let message = Authenticate {
            user,
            domain,
            proof: bytes::sixteen(slice_subrange(response, 0, PROOF_LENGTH)),
            blob: slice_to_vec(blob),
            flags,
            session_key,
        };
        Ok(message)
    }

    /// The MIC that the bytes of a message are long enough to carry.
    pub fn mic(bytes: &[u8]) -> (mic: Option<&[u8]>)
        ensures
            match mic {
                Some(mic) => mic_of(bytes@) == Some(mic@),
                None => mic_of(bytes@) is None,
            },
    {
        if bytes.len() >= MIC_OFFSET + MIC_LENGTH {
            Some(slice_subrange(bytes, MIC_OFFSET, MIC_OFFSET + MIC_LENGTH))
        } else {
            None
        }
    }
}

/// Whether the bytes begin as an NTLM message does.
fn signed(bytes: &[u8]) -> (is: bool)
    ensures
        is == is_signed(bytes@),
{
    let is = bytes.len() >= 8 && bytes[0] == 0x4E && bytes[1] == 0x54 && bytes[2] == 0x4C
        && bytes[3] == 0x4D && bytes[4] == 0x53 && bytes[5] == 0x53 && bytes[6] == 0x50 && bytes[7]
        == 0x00;
    proof {
        if is {
            assert(signature() =~= bytes@.take(8));
        } else if is_signed(bytes@) {
            assert(forall|i: int| 0 <= i < 8 ==> signature()[i] == bytes[i]);
        }
    }
    is
}

fn u16_at(bytes: &[u8], at: usize) -> (read: Option<u16>)
    ensures
        read == le16_at(bytes@, at as int),
{
    if at <= bytes.len() && bytes.len() - at >= 2 {
        Some(bytes[at] as u16 + 0x100 * bytes[at + 1] as u16)
    } else {
        None
    }
}

fn u32_at(bytes: &[u8], at: usize) -> (read: Option<u32>)
    ensures
        read == le32_at(bytes@, at as int),
{
    if at <= bytes.len() && bytes.len() - at >= 4 {
        Some(
            bytes[at] as u32 + 0x100 * bytes[at + 1] as u32 + 0x1_0000 * bytes[at + 2] as u32
                + 0x100_0000 * bytes[at + 3] as u32,
        )
    } else {
        None
    }
}

/// The bytes a `Len, MaxLen, BufferOffset` field points at, where the message holds them.
fn pointed<'a>(bytes: &'a [u8], at: usize) -> (payload: Option<&'a [u8]>)
    requires
        at + 4 <= usize::MAX,
    ensures
        match payload {
            Some(payload) => pointed_at(bytes@, at as int) == Some(payload@),
            None => pointed_at(bytes@, at as int) is None,
        },
{
    match (u16_at(bytes, at), u32_at(bytes, at + 4)) {
        (Some(length), Some(offset)) => {
            let length: usize = length as usize;
            let offset: usize = offset as usize;
            if length <= bytes.len() && offset <= bytes.len() - length {
                Some(slice_subrange(bytes, offset, offset + length))
            } else {
                None
            }
        },
        _ => None,
    }
}

/// One `Len, MaxLen, BufferOffset` field, and the bytes it points at.
fn field<'a>(bytes: &'a [u8], at: usize, named: Field) -> (payload: Result<
    &'a [u8],
    AuthenticateError,
>)
    requires
        at + 8 <= usize::MAX,
    ensures
        match payload {
            Ok(payload) => field_bytes(bytes@, at as int, named) == Ok::<_, Refusal<Seq<char>>>(
                payload@,
            ),
            Err(why) => field_bytes(bytes@, at as int, named) == Err::<Seq<u8>, _>(why@),
        },
{
    if at + 8 > bytes.len() {
        return Err(Refusal::TruncatedBeforeField { field: named });
    }
    match pointed(bytes, at) {
        Some(payload) => Ok(payload),
        None => Err(Refusal::FieldOutside { field: named }),
    }
}

/// The text of a field's payload.
fn text(payload: &[u8], unicode: bool, named: Field) -> (name: Result<String, AuthenticateError>)
    ensures
        match name {
            Ok(name) => payload_text(payload@, unicode, named) == Ok::<_, Refusal<Seq<char>>>(
                name@,
            ),
            Err(why) => payload_text(payload@, unicode, named) == Err::<Seq<char>, _>(why@),
        },
{
    if unicode {
        match text::from_utf16_le(payload) {
            Some(name) => Ok(name),
            None => Err(Refusal::NotUtf16 { field: named }),
        }
    } else {
        Ok(text::from_latin1(payload))
    }
}

} // verus!
