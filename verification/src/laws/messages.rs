//! What holds of the AUTHENTICATE message: what is read of one is what its header points at, byte
//! for byte, and every other is refused for what it lacks.

use crate::laws::texts;
use crate::message;
use crate::message::AuthenticateView;
use crate::refusal::{Field, Refusal};
use crate::text;
use vstd::prelude::*;

verus! {

/// The number that two bytes are, the low one first.
pub open spec fn two_bytes(bytes: Seq<u8>, at: int) -> int {
    bytes[at] + 0x100 * bytes[at + 1]
}

/// The number that four bytes are, the lowest first.
pub open spec fn four_bytes(bytes: Seq<u8>, at: int) -> int {
    bytes[at] + 0x100 * bytes[at + 1] + 0x1_0000 * bytes[at + 2] + 0x100_0000 * bytes[at + 3]
}

/// Whether the eight bytes at `at` state the length of `payload` first and last where it begins,
/// and `payload` stands there, within the message.
pub open spec fn leads_to(bytes: Seq<u8>, at: int, payload: Seq<u8>) -> bool {
    &&& at + 8 <= bytes.len()
    &&& two_bytes(bytes, at) == payload.len()
    &&& four_bytes(bytes, at + 4) + payload.len() <= bytes.len()
    &&& forall|i: int|
        0 <= i < payload.len() ==> bytes[four_bytes(bytes, at + 4) + i] == #[trigger] payload[i]
}

/// Whether the eight bytes at `at` lead out of the message.
pub open spec fn leads_outside(bytes: Seq<u8>, at: int) -> bool {
    at + 8 <= bytes.len() && four_bytes(bytes, at + 4) + two_bytes(bytes, at) > bytes.len()
}

/// Whether a message begins with `NTLMSSP` and a zero.
pub open spec fn begins_as_ntlm(bytes: Seq<u8>) -> bool {
    &&& bytes.len() >= 8
    &&& bytes[0] == 'N' as u8
    &&& bytes[1] == 'T' as u8
    &&& bytes[2] == 'L' as u8
    &&& bytes[3] == 'M' as u8
    &&& bytes[4] == 'S' as u8
    &&& bytes[5] == 'S' as u8
    &&& bytes[6] == 'P' as u8
    &&& bytes[7] == 0
}

/// Whether the payload of a name is that name: in UTF-16, two bytes to a code unit and an odd last
/// byte left out, where the message is Unicode, and else one byte to a character.
pub open spec fn is_name(payload: Seq<u8>, unicode: bool, name: Seq<char>) -> bool {
    if unicode {
        &&& text::utf16(name).len() == payload.len() / 2
        &&& forall|i: int|
            0 <= i < payload.len() / 2 ==> #[trigger] text::utf16(name)[i] == two_bytes(
                payload,
                2 * i,
            )
    } else {
        &&& name.len() == payload.len()
        &&& forall|i: int| 0 <= i < payload.len() ==> #[trigger] name[i] as int == payload[i]
    }
}

proof fn lemma_signature(bytes: Seq<u8>)
    ensures
        message::is_signed(bytes) <==> begins_as_ntlm(bytes),
{
    if begins_as_ntlm(bytes) {
        assert(message::signature() =~= bytes.take(8));
    }
    if message::is_signed(bytes) {
        assert(forall|i: int| 0 <= i < 8 ==> message::signature()[i] == bytes[i]);
    }
}

proof fn lemma_leads_to(bytes: Seq<u8>, at: int, payload: Seq<u8>)
    requires
        0 <= at,
    ensures
        leads_to(bytes, at, payload) <==> at + 8 <= bytes.len() && message::pointed_at(bytes, at)
            == Some(payload),
        at + 8 <= bytes.len() ==> (leads_outside(bytes, at) <==> message::pointed_at(
            bytes,
            at,
        ) is None),
{
    if leads_to(bytes, at, payload) {
        assert(message::pointed_at(bytes, at)->Some_0 =~= payload);
    }
    if at + 8 <= bytes.len() && message::pointed_at(bytes, at) == Some(payload) {
        let offset = four_bytes(bytes, at + 4);
        assert(payload == bytes.subrange(offset, offset + two_bytes(bytes, at)));
    }
}

proof fn lemma_name(payload: Seq<u8>, unicode: bool, name: Seq<char>, named: Field)
    ensures
        is_name(payload, unicode, name) <==> message::payload_text(payload, unicode, named) == Ok::<
            _,
            Refusal<Seq<char>>,
        >(name),
{
    if unicode {
        let units = text::byte_units(payload);
        texts::units_read_as_the_text_they_are_written_of(units, name);
        if is_name(payload, unicode, name) {
            assert(text::utf16(name) =~= units);
        }
    } else if is_name(payload, unicode, name) {
        assert(text::latin1_text(payload) =~= name);
    }
}

proof fn lemma_flags(flags: u32)
    ensures
        flags & 1 != 0 <==> flags % 2 == 1,
{
    assert(flags & 1 != 0 <==> flags % 2 == 1) by (bit_vector);
}

/// Every AUTHENTICATE message whose fields lead to their payloads, wherever they stand in it and
/// however long they are, is read into those: the names its payloads are, the first sixteen bytes
/// of an NT response of at least forty-four whose seventeenth and eighteenth are one, all the rest
/// of it, the flags and the session key.
pub proof fn a_message_is_read_into_what_its_fields_lead_to(
    bytes: Seq<u8>,
    response: Seq<u8>,
    user_payload: Seq<u8>,
    user: Seq<char>,
    domain_payload: Seq<u8>,
    domain: Seq<char>,
    session_key: Seq<u8>,
)
    requires
        begins_as_ntlm(bytes),
        bytes.len() >= 64,
        four_bytes(bytes, 8) == 3,
        leads_to(bytes, 20, response),
        leads_to(bytes, 36, user_payload),
        leads_to(bytes, 28, domain_payload),
        leads_to(bytes, 52, session_key) || (leads_outside(bytes, 52) && session_key.len() == 0),
        response.len() >= 44,
        response[16] == 1,
        response[17] == 1,
        is_name(user_payload, four_bytes(bytes, 60) % 2 == 1, user),
        is_name(domain_payload, four_bytes(bytes, 60) % 2 == 1, domain),
    ensures
        message::parsed(bytes) is Ok,
        ({
            let read = message::parsed(bytes)->Ok_0;
            &&& read.user == user
            &&& read.domain == domain
            &&& read.flags == four_bytes(bytes, 60)
            &&& read.session_key == session_key
            &&& read.proof.len() == 16
            &&& read.blob.len() == response.len() - 16
            &&& read.proof + read.blob == response
        }),
{
    lemma_signature(bytes);
    lemma_leads_to(bytes, 20, response);
    lemma_leads_to(bytes, 36, user_payload);
    lemma_leads_to(bytes, 28, domain_payload);
    lemma_leads_to(bytes, 52, session_key);
    let flags = four_bytes(bytes, 60) as u32;
    lemma_flags(flags);
    let unicode = flags & 1 != 0;
    lemma_name(user_payload, unicode, user, Field::UserName);
    lemma_name(domain_payload, unicode, domain, Field::DomainName);
    assert(response.skip(16)[0] == response[16] && response.skip(16)[1] == response[17]);
    let read = message::parsed(bytes)->Ok_0;
    assert(read.proof + read.blob =~= response);
    assert(read.session_key =~= session_key);
}

/// What is read of a message is what its fields lead to: nothing is read of any other.
pub proof fn what_is_read_of_a_message_is_what_its_fields_lead_to(bytes: Seq<u8>)
    requires
        message::parsed(bytes) is Ok,
    ensures
        begins_as_ntlm(bytes),
        bytes.len() >= 64,
        four_bytes(bytes, 8) == 3,
        ({
            let read = message::parsed(bytes)->Ok_0;
            &&& leads_to(bytes, 20, read.proof + read.blob)
            &&& read.proof.len() == 16
            &&& read.blob.len() >= 28
            &&& read.blob[0] == 1
            &&& read.blob[1] == 1
            &&& read.flags == four_bytes(bytes, 60)
            &&& leads_to(bytes, 52, read.session_key) || (leads_outside(bytes, 52)
                && read.session_key.len() == 0)
            &&& exists|payload: Seq<u8>| #[trigger]
                leads_to(bytes, 36, payload) && is_name(payload, read.flags % 2 == 1, read.user)
            &&& exists|payload: Seq<u8>| #[trigger]
                leads_to(bytes, 28, payload) && is_name(payload, read.flags % 2 == 1, read.domain)
        }),
{
    lemma_signature(bytes);
    let read = message::parsed(bytes)->Ok_0;
    let response = message::pointed_at(bytes, 20)->Some_0;
    assert(response =~= read.proof + read.blob);
    lemma_leads_to(bytes, 20, response);
    lemma_leads_to(bytes, 52, read.session_key);
    lemma_flags(read.flags);
    let unicode = read.flags & 1 != 0;
    let user_payload = message::pointed_at(bytes, 36)->Some_0;
    lemma_leads_to(bytes, 36, user_payload);
    lemma_name(user_payload, unicode, read.user, Field::UserName);
    let domain_payload = message::pointed_at(bytes, 28)->Some_0;
    lemma_leads_to(bytes, 28, domain_payload);
    lemma_name(domain_payload, unicode, read.domain, Field::DomainName);
}

/// What does not begin as an NTLM message, is of another type or ends before its flags is refused
/// as such.
pub proof fn what_is_no_authenticate_message_is_refused(bytes: Seq<u8>)
    ensures
        !begins_as_ntlm(bytes) ==> message::parsed(bytes) == Err::<AuthenticateView, _>(
            Refusal::<Seq<char>>::NoSignature,
        ),
        begins_as_ntlm(bytes) && (bytes.len() < 12 || four_bytes(bytes, 8) != 3)
            ==> message::parsed(bytes) == Err::<AuthenticateView, _>(
            Refusal::<Seq<char>>::NotAuthenticate,
        ),
        begins_as_ntlm(bytes) && 12 <= bytes.len() < 64 && four_bytes(bytes, 8) == 3
            ==> message::parsed(bytes) == Err::<AuthenticateView, _>(
            Refusal::<Seq<char>>::TruncatedBeforeFlags,
        ),
{
    lemma_signature(bytes);
}

/// A message whose NT response lies outside it, is twenty-four bytes long, is shorter than a proof
/// or goes on with no client challenge is refused as such.
pub proof fn what_is_no_ntlmv2_response_is_refused(bytes: Seq<u8>, response: Seq<u8>)
    requires
        begins_as_ntlm(bytes),
        bytes.len() >= 64,
        four_bytes(bytes, 8) == 3,
    ensures
        leads_outside(bytes, 20) ==> message::parsed(bytes) == Err::<AuthenticateView, _>(
            Refusal::<Seq<char>>::FieldOutside { field: Field::NtChallengeResponse },
        ),
        leads_to(bytes, 20, response) && response.len() == 24 ==> message::parsed(bytes) == Err::<
            AuthenticateView,
            _,
        >(Refusal::<Seq<char>>::NtlmV1),
        leads_to(bytes, 20, response) && response.len() < 16 ==> message::parsed(bytes) == Err::<
            AuthenticateView,
            _,
        >(Refusal::<Seq<char>>::NoNtlmV2),
        leads_to(bytes, 20, response) && response.len() != 24 && response.len() >= 16 && (
        response.len() < 44 || response[16] != 1 || response[17] != 1) ==> message::parsed(bytes)
            == Err::<AuthenticateView, _>(Refusal::<Seq<char>>::NotClientChallenge),
{
    lemma_signature(bytes);
    lemma_leads_to(bytes, 20, response);
    if response.len() >= 44 {
        assert(response.skip(16)[0] == response[16] && response.skip(16)[1] == response[17]);
    }
}

/// A message with an NTLMv2 response whose user, or else whose domain, lies outside it or is not
/// the UTF-16 it says is refused by that field's name.
pub proof fn a_name_that_is_not_read_is_refused_by_its_field(
    bytes: Seq<u8>,
    response: Seq<u8>,
    user_payload: Seq<u8>,
    user: Seq<char>,
    domain_payload: Seq<u8>,
    unicode: bool,
)
    requires
        unicode == (four_bytes(bytes, 60) % 2 == 1),
        begins_as_ntlm(bytes),
        bytes.len() >= 64,
        four_bytes(bytes, 8) == 3,
        leads_to(bytes, 20, response),
        response.len() >= 44,
        response[16] == 1,
        response[17] == 1,
    ensures
        leads_outside(bytes, 36) ==> message::parsed(bytes) == Err::<AuthenticateView, _>(
            Refusal::<Seq<char>>::FieldOutside { field: Field::UserName },
        ),
        leads_to(bytes, 36, user_payload) && (forall|any: Seq<char>|
            !#[trigger] is_name(user_payload, unicode, any))
            ==> message::parsed(bytes) == Err::<AuthenticateView, _>(
            Refusal::<Seq<char>>::NotUtf16 { field: Field::UserName },
        ),
        leads_to(bytes, 36, user_payload) && is_name(user_payload, unicode, user) && leads_outside(bytes, 28) ==> message::parsed(bytes) == Err::<AuthenticateView, _>(
            Refusal::<Seq<char>>::FieldOutside { field: Field::DomainName },
        ),
        leads_to(bytes, 36, user_payload) && is_name(user_payload, unicode, user) && leads_to(bytes, 28, domain_payload) && (forall|any: Seq<char>|
            !#[trigger] is_name(domain_payload, unicode, any))
            ==> message::parsed(bytes) == Err::<AuthenticateView, _>(
            Refusal::<Seq<char>>::NotUtf16 { field: Field::DomainName },
        ),
{
    lemma_signature(bytes);
    lemma_leads_to(bytes, 20, response);
    assert(response.skip(16)[0] == response[16] && response.skip(16)[1] == response[17]);
    lemma_leads_to(bytes, 36, user_payload);
    lemma_leads_to(bytes, 28, domain_payload);
    let flags = four_bytes(bytes, 60) as u32;
    lemma_flags(flags);
    lemma_name(user_payload, unicode, user, Field::UserName);
    if let Ok(name) = message::payload_text(user_payload, unicode, Field::UserName) {
        lemma_name(user_payload, unicode, name, Field::UserName);
        assert(is_name(user_payload, unicode, name));
    }
    if let Ok(name) = message::payload_text(domain_payload, unicode, Field::DomainName) {
        lemma_name(domain_payload, unicode, name, Field::DomainName);
        assert(is_name(domain_payload, unicode, name));
    }
}

/// The MIC of a message is its sixteen bytes from the seventy-third on, where it is long enough to
/// hold them.
pub proof fn a_mic_is_the_sixteen_bytes_behind_the_version(bytes: Seq<u8>)
    ensures
        message::mic_of(bytes) is Some <==> bytes.len() >= 88,
        bytes.len() >= 88 ==> {
            &&& message::mic_of(bytes)->Some_0.len() == 16
            &&& forall|i: int|
                0 <= i < 16 ==> #[trigger] message::mic_of(bytes)->Some_0[i] == bytes[72 + i]
        },
{
}

} // verus!
