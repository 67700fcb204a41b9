//! Why a response, or an account, is refused.

use crate::text;
use vstd::prelude::*;

verus! {

/// A field of the AUTHENTICATE message that a refusal can name.
#[derive(Clone, Copy, Debug, PartialEq, Eq, Structural)]
pub enum Field {
    NtChallengeResponse,
    UserName,
    DomainName,
}

impl Field {
    /// The field's name, as MS-NLMP gives it.
    pub open spec fn text(self) -> Seq<char> {
        match self {
            Field::NtChallengeResponse => "NtChallengeResponse"@,
            Field::UserName => "UserName"@,
            Field::DomainName => "DomainName"@,
        }
    }

    /// The field's name, as MS-NLMP gives it.
    pub fn name(self) -> (name: &'static str)
        ensures
            name@ == self.text(),
    {
        match self {
            Field::NtChallengeResponse => "NtChallengeResponse",
            Field::UserName => "UserName",
            Field::DomainName => "DomainName",
        }
    }
}

/// What was refused and why, over texts of type `T`.
#[derive(Clone, Debug, PartialEq, Eq)]
pub enum Refusal<T> {
    /// The NT hash of an account is not one.
    HashNotHexadecimal,
    /// Another mechanism was presented.
    AnotherMechanism { presented: T },
    /// The AUTHENTICATE message was not presented.
    NoMessage,
    /// The AUTHENTICATE message presented is not base64.
    MessageNotBase64,
    /// The message does not begin as an NTLM message does.
    NoSignature,
    /// The message is an NTLM message of another type.
    NotAuthenticate,
    /// The message ends before its flags.
    TruncatedBeforeFlags,
    /// The message ends before the place of one of its fields.
    TruncatedBeforeField { field: Field },
    /// A field points outside the message.
    FieldOutside { field: Field },
    /// The response is `NTLMv1`.
    NtlmV1,
    /// The response is too short to be `NTLMv2`.
    NoNtlmV2,
    /// What follows the proof is no `NTLMv2` client challenge.
    NotClientChallenge,
    /// A name is not UTF-16.
    NotUtf16 { field: Field },
    /// The claim is a user, and not the message's.
    AnotherUser,
    /// The claim names another account than the message.
    AnotherAccount { message: T, claim: T },
    /// The node holds no hash for the user.
    NoAccount { user: T, domain: T },
    /// No challenge is outstanding.
    NoChallenge,
    /// The response proves under no outstanding challenge.
    NotProven,
    /// A message could not be read; why, in its reader's words.
    Unreadable { why: T },
    /// The response was made too far from now.
    TooFarOff { apart: u64, lifetime: u64 },
    /// The response names its target, from a source it does not trust.
    TargetUntrusted { expected: T },
    /// The response names no target.
    NoTarget { expected: T },
    /// The response names another target.
    AnotherTarget { named: T, expected: T },
    /// A message presented beside the AUTHENTICATE message is not base64.
    ProofNotBase64 { name: T },
    /// The response is bound to another channel.
    AnotherChannel,
    /// The response is bound to no channel.
    NoChannel,
    /// A MIC is required, and the message carries none.
    NoMic,
    /// A MIC is required, and there is nothing to check it over.
    MicUncheckable,
    /// The CHALLENGE message is another than the one answered.
    AnotherChallenge,
    /// The session key that key exchange carries has the wrong length.
    SessionKeyLength,
    /// The message is too short for the MIC it should carry.
    TooShortForMic,
    /// The MIC does not verify.
    MicMismatch,
}

/// A refusal, as the verifier returns it.
pub type AuthenticateError = Refusal<String>;

impl View for Refusal<String> {
    type V = Refusal<Seq<char>>;

    open spec fn view(&self) -> Refusal<Seq<char>> {
        match *self {
            Refusal::HashNotHexadecimal => Refusal::HashNotHexadecimal,
            Refusal::AnotherMechanism { presented } => Refusal::AnotherMechanism {
                presented: presented@,
            },
            Refusal::NoMessage => Refusal::NoMessage,
            Refusal::MessageNotBase64 => Refusal::MessageNotBase64,
            Refusal::NoSignature => Refusal::NoSignature,
            Refusal::NotAuthenticate => Refusal::NotAuthenticate,
            Refusal::TruncatedBeforeFlags => Refusal::TruncatedBeforeFlags,
            Refusal::TruncatedBeforeField { field } => Refusal::TruncatedBeforeField { field },
            Refusal::FieldOutside { field } => Refusal::FieldOutside { field },
            Refusal::NtlmV1 => Refusal::NtlmV1,
            Refusal::NoNtlmV2 => Refusal::NoNtlmV2,
            Refusal::NotClientChallenge => Refusal::NotClientChallenge,
            Refusal::NotUtf16 { field } => Refusal::NotUtf16 { field },
            Refusal::AnotherUser => Refusal::AnotherUser,
            Refusal::AnotherAccount { message, claim } => Refusal::AnotherAccount {
                message: message@,
                claim: claim@,
            },
            Refusal::NoAccount { user, domain } => Refusal::NoAccount {
                user: user@,
                domain: domain@,
            },
            Refusal::NoChallenge => Refusal::NoChallenge,
            Refusal::NotProven => Refusal::NotProven,
            Refusal::Unreadable { why } => Refusal::Unreadable { why: why@ },
            Refusal::TooFarOff { apart, lifetime } => Refusal::TooFarOff { apart, lifetime },
            Refusal::TargetUntrusted { expected } => Refusal::TargetUntrusted {
                expected: expected@,
            },
            Refusal::NoTarget { expected } => Refusal::NoTarget { expected: expected@ },
            Refusal::AnotherTarget { named, expected } => Refusal::AnotherTarget {
                named: named@,
                expected: expected@,
            },
            Refusal::ProofNotBase64 { name } => Refusal::ProofNotBase64 { name: name@ },
            Refusal::AnotherChannel => Refusal::AnotherChannel,
            Refusal::NoChannel => Refusal::NoChannel,
            Refusal::NoMic => Refusal::NoMic,
            Refusal::MicUncheckable => Refusal::MicUncheckable,
            Refusal::AnotherChallenge => Refusal::AnotherChallenge,
            Refusal::SessionKeyLength => Refusal::SessionKeyLength,
            Refusal::TooShortForMic => Refusal::TooShortForMic,
            Refusal::MicMismatch => Refusal::MicMismatch,
        }
    }
}

impl Refusal<Seq<char>> {
    /// The refusal in words.
    pub open spec fn text(self) -> Seq<char> {
        match self {
            Refusal::HashNotHexadecimal => "an NT hash is thirty-two hexadecimal digits"@,
            Refusal::AnotherMechanism { presented } => "'"@ + presented
                + "' was presented and this authenticator verifies ntlm"@,
            Refusal::NoMessage => "no ntlm.authenticate proof was presented"@,
            Refusal::MessageNotBase64 => "the NTLM message is not base64"@,
            Refusal::NoSignature => "the NTLM message has no NTLMSSP signature"@,
            Refusal::NotAuthenticate =>
                "the NTLM message is not an AUTHENTICATE (type 3) message"@,
            Refusal::TruncatedBeforeFlags =>
                "the NTLM AUTHENTICATE message is truncated before its flags"@,
            Refusal::TruncatedBeforeField { field } =>
                "the NTLM AUTHENTICATE message is truncated before its "@ + field.text()
                + " field"@,
            Refusal::FieldOutside { field } => "the NTLM AUTHENTICATE message's "@ + field.text()
                + " points outside the message"@,
            Refusal::NtlmV1 => "the NT response is NTLMv1 and this node verifies NTLMv2 only"@,
            Refusal::NoNtlmV2 => "the NTLM AUTHENTICATE message carries no NTLMv2 response"@,
            Refusal::NotClientChallenge =>
                "the NT response's blob is not an NTLMv2 client challenge"@,
            Refusal::NotUtf16 { field } => "the NTLM "@ + field.text() + " is not UTF-16"@,
            Refusal::AnotherUser => "the type 3 message's user is not the claimed value"@,
            Refusal::AnotherAccount { message, claim } => "the type 3 message names '"@ + message
                + "' and the claim names '"@ + claim + "': another account"@,
            Refusal::NoAccount { user, domain } => "the node holds no NT hash for '"@ + user
                + "' in domain '"@ + domain + "'"@,
            Refusal::NoChallenge =>
                "the node has no server challenge outstanding: none issued, or already spent"@,
            Refusal::NotProven =>
                "the NTLMv2 response does not prove under the stored hash and any outstanding challenge"@,
            Refusal::Unreadable { why } => why,
            Refusal::TooFarOff { apart, lifetime } => "the response was made "@ + text::decimal(
                apart as nat,
            ) + " seconds from the node's clock, and the node takes none further off than "@
                + text::decimal(lifetime as nat),
            Refusal::TargetUntrusted { expected } => "the node expects the target '"@ + expected
                + "' and the response names a target it took from an untrusted source"@,
            Refusal::NoTarget { expected } => "the node expects the target '"@ + expected
                + "' and the response names no target"@,
            Refusal::AnotherTarget { named, expected } => "the response was made for '"@ + named
                + "' and this node is '"@ + expected + "'"@,
            Refusal::ProofNotBase64 { name } => "the "@ + name + " proof is not base64"@,
            Refusal::AnotherChannel =>
                "the response is bound to another channel than the one this node serves: it was made for a connection to someone else"@,
            Refusal::NoChannel =>
                "the node holds clients to its channel and the response is bound to none"@,
            Refusal::NoMic =>
                "the node requires a MIC and the response says its message carries none"@,
            Refusal::MicUncheckable =>
                "the node requires a MIC and the transport presented no ntlm.negotiate and ntlm.challenge to check it over"@,
            Refusal::AnotherChallenge =>
                "the CHALLENGE message presented is not the one the response proved under"@,
            Refusal::SessionKeyLength =>
                "key exchange was negotiated and the EncryptedRandomSessionKey is not sixteen bytes"@,
            Refusal::TooShortForMic =>
                "the response says its message carries a MIC and the message is too short to"@,
            Refusal::MicMismatch =>
                "the MIC does not verify: a message of this exchange was changed on its way"@,
        }
    }
}

/// Three texts, one after another.
fn joined(first: &str, second: &str, third: &str) -> (whole: String)
    ensures
        whole@ == first@ + second@ + third@,
{
    let mut whole = first.to_owned();
    whole.append(second);
    whole.append(third);
    whole
}

impl Refusal<String> {
    /// The refusal in words.
    pub fn message(&self) -> (words: String)
        ensures
            words@ == self@.text(),
    {
        match self {
            Refusal::HashNotHexadecimal => "an NT hash is thirty-two hexadecimal digits".to_owned(),
            Refusal::AnotherMechanism { presented } => joined(
                "'",
                presented,
                "' was presented and this authenticator verifies ntlm",
            ),
            Refusal::NoMessage => "no ntlm.authenticate proof was presented".to_owned(),
            Refusal::MessageNotBase64 => "the NTLM message is not base64".to_owned(),
            Refusal::NoSignature => "the NTLM message has no NTLMSSP signature".to_owned(),
            Refusal::NotAuthenticate =>
                "the NTLM message is not an AUTHENTICATE (type 3) message".to_owned(),
            Refusal::TruncatedBeforeFlags =>
                "the NTLM AUTHENTICATE message is truncated before its flags".to_owned(),
            Refusal::TruncatedBeforeField { field } => joined(
                "the NTLM AUTHENTICATE message is truncated before its ",
                field.name(),
                " field",
            ),
            Refusal::FieldOutside { field } => joined(
                "the NTLM AUTHENTICATE message's ",
                field.name(),
                " points outside the message",
            ),
            Refusal::NtlmV1 =>
                "the NT response is NTLMv1 and this node verifies NTLMv2 only".to_owned(),
            Refusal::NoNtlmV2 =>
                "the NTLM AUTHENTICATE message carries no NTLMv2 response".to_owned(),
            Refusal::NotClientChallenge =>
                "the NT response's blob is not an NTLMv2 client challenge".to_owned(),
            Refusal::NotUtf16 { field } => joined("the NTLM ", field.name(), " is not UTF-16"),
            Refusal::AnotherUser =>
                "the type 3 message's user is not the claimed value".to_owned(),
            Refusal::AnotherAccount { message, claim } => {
                let named = joined("the type 3 message names '", message, "' and the claim names '");
                joined(named.as_str(), claim, "': another account")
            },
            Refusal::NoAccount { user, domain } => {
                let named = joined("the node holds no NT hash for '", user, "' in domain '");
                joined(named.as_str(), domain, "'")
            },
            Refusal::NoChallenge =>
                "the node has no server challenge outstanding: none issued, or already spent".to_owned(),
            Refusal::NotProven =>
                "the NTLMv2 response does not prove under the stored hash and any outstanding challenge".to_owned(),
            Refusal::Unreadable { why } => why.clone(),
            Refusal::TooFarOff { apart, lifetime } => {
                let apart = text::to_decimal(*apart);
                let lifetime = text::to_decimal(*lifetime);
                let mut words = joined(
                    "the response was made ",
                    apart.as_str(),
                    " seconds from the node's clock, and the node takes none further off than ",
                );
                words.append(lifetime.as_str());
                words
            },
            Refusal::TargetUntrusted { expected } => joined(
                "the node expects the target '",
                expected,
                "' and the response names a target it took from an untrusted source",
            ),
            Refusal::NoTarget { expected } => joined(
                "the node expects the target '",
                expected,
                "' and the response names no target",
            ),
            Refusal::AnotherTarget { named, expected } => {
                let made = joined("the response was made for '", named, "' and this node is '");
                joined(made.as_str(), expected, "'")
            },
            Refusal::ProofNotBase64 { name } => joined("the ", name, " proof is not base64"),
            Refusal::AnotherChannel =>
                "the response is bound to another channel than the one this node serves: it was made for a connection to someone else".to_owned(),
            Refusal::NoChannel =>
                "the node holds clients to its channel and the response is bound to none".to_owned(),
            Refusal::NoMic =>
                "the node requires a MIC and the response says its message carries none".to_owned(),
            Refusal::MicUncheckable =>
                "the node requires a MIC and the transport presented no ntlm.negotiate and ntlm.challenge to check it over".to_owned(),
            Refusal::AnotherChallenge =>
                "the CHALLENGE message presented is not the one the response proved under".to_owned(),
            Refusal::SessionKeyLength =>
                "key exchange was negotiated and the EncryptedRandomSessionKey is not sixteen bytes".to_owned(),
            Refusal::TooShortForMic =>
                "the response says its message carries a MIC and the message is too short to".to_owned(),
            Refusal::MicMismatch =>
                "the MIC does not verify: a message of this exchange was changed on its way".to_owned(),
        }
    }
}

} // verus!
