//! What binds a proven response to this exchange and to this channel: the MIC, and the channel
//! bindings.
//!
//! **The MIC** ([MS-NLMP] 3.1.5.1.2, 3.2.5.1.2). A client that sets 0x2 in its `MsvAvFlags` says
//! its AUTHENTICATE message carries one, sixteen bytes at offset 72: HMAC-MD5 under the exported
//! session key over the NEGOTIATE, the CHALLENGE and the AUTHENTICATE message as sent, the MIC's
//! own bytes zero. It is what stops someone in the middle rewriting the flags the two ends
//! negotiated. The session key is derived as 3.3.2 and 3.4.5.1 say: the session base key is
//! HMAC-MD5 under the response key over the `NTProofStr`; under `NTLMv2` that is the key exchange
//! key; and where the client negotiated key exchange (`0x4000_0000`) the exported key is what RC4
//! under that key opens the `EncryptedRandomSessionKey` to. The key is derived for the MIC and
//! dropped: this verifier signs and seals nothing.
//!
//! **The channel** (3.1.5.1.2, RFC 5929). `MsvAvChannelBindings` is the MD5 of a
//! `gss_channel_bindings_struct` whose addresses are empty and whose application data is
//! `tls-server-end-point:` and the hash of the server's certificate. A response relayed from a TLS
//! connection to someone else's certificate carries that certificate's hash, and the proof covers
//! it.
//!
//! Both need what only the transport holds. The channel is configuration, the node's own
//! certificate, and is told to the verifier. The first two messages are this connection's, and
//! ride as the proofs `ntlm.negotiate` and `ntlm.challenge`; where the transport presents neither
//! the MIC is not checked, unless the node requires it, and then the response is refused.

use crate::bytes;
use crate::crypto;
use crate::message;
use crate::message::{Authenticate, AuthenticateView, MIC_LENGTH, MIC_OFFSET, NEGOTIATE_KEY_EXCH};
use crate::presented::{ClientChallenge, ClientChallengeView};
use crate::rc4;
use crate::refusal::{AuthenticateError, Refusal};
use vstd::prelude::*;
use vstd::slice::slice_subrange;

verus! {

/// The proof that carries the NEGOTIATE message.
pub const NEGOTIATE_PROOF: &'static str = "ntlm.negotiate";

/// The proof that carries the CHALLENGE message.
pub const CHALLENGE_PROOF: &'static str = "ntlm.challenge";

/// What RFC 5929 section 4 puts in front of the certificate's hash.
pub open spec fn tls_prefix() -> Seq<u8> {
    "tls-server-end-point:"@.map_values(|c: char| c as u8)
}

/// The length that a channel's structure states: four bytes of it.
pub open spec fn stated_length(length: nat) -> u32 {
    if length <= u32::MAX {
        length as u32
    } else {
        u32::MAX
    }
}

/// The hash of the channel with this application data: MD5 over two empty addresses, the data's
/// length and the data.
pub open spec fn channel_hash(data: Seq<u8>) -> Seq<u8> {
    crypto::md5_digest(bytes::zeros(16) + bytes::le32(stated_length(data.len())) + data)
}

/// The exported session key, or why there is none.
pub open spec fn exported_key(
    response_key: Seq<u8>,
    proof_str: Seq<u8>,
    flags: u32,
    encrypted: Seq<u8>,
) -> Result<Seq<u8>, Refusal<Seq<char>>> {
    let base = crypto::hmac_md5_code(response_key, proof_str);
    if flags & NEGOTIATE_KEY_EXCH == 0 {
        Ok(base)
    } else if encrypted.len() == 16 {
        Ok(rc4::enciphered(base, encrypted))
    } else {
        Err(Refusal::SessionKeyLength)
    }
}

/// The AUTHENTICATE message with the bytes of its MIC zero.
pub open spec fn without_mic(authenticate: Seq<u8>) -> Seq<u8> {
    authenticate.take(MIC_OFFSET as int) + bytes::zeros(MIC_LENGTH as nat) + authenticate.skip(
        MIC_OFFSET + MIC_LENGTH,
    )
}

/// What a MIC is computed over.
pub open spec fn mic_message(
    negotiate: Seq<u8>,
    challenge: Seq<u8>,
    authenticate: Seq<u8>,
) -> Seq<u8> {
    negotiate + challenge + without_mic(authenticate)
}

/// Why the MIC of a message does not hold, where it does not.
pub open spec fn mic_refusal(
    key: Seq<u8>,
    negotiate: Seq<u8>,
    challenge: Seq<u8>,
    authenticate: Seq<u8>,
) -> Option<Refusal<Seq<char>>> {
    match message::mic_of(authenticate) {
        None => Some(Refusal::TooShortForMic),
        Some(carried) => if carried == crypto::hmac_md5_code(
            key,
            mic_message(negotiate, challenge, authenticate),
        ) {
            None
        } else {
            Some(Refusal::MicMismatch)
        },
    }
}

/// What a proven response is held to beyond its own words.
pub struct BindingView {
    pub channel: Option<Seq<u8>>,
    pub integrity: bool,
}

/// One exchange, once the proof has verified.
pub struct ExchangeView {
    pub negotiate: Option<Seq<u8>>,
    pub challenge: Option<Seq<u8>>,
    pub announced: Result<Seq<u8>, Seq<char>>,
    pub authenticate: Seq<u8>,
    pub read: AuthenticateView,
    pub response_key: Seq<u8>,
    pub server_challenge: Seq<u8>,
}

impl BindingView {
    /// Why the channel of a response does not hold, where it does not.
    pub open spec fn channel_refusal(self, client: ClientChallengeView) -> Option<
        Refusal<Seq<char>>,
    > {
        match (self.channel, client.channel) {
            (None, _) => None,
            (Some(_), None) => Some(Refusal::NoChannel),
            (Some(expected), Some(bound)) => if bound == expected {
                None
            } else {
                Some(Refusal::AnotherChannel)
            },
        }
    }

    /// Why a response whose MIC cannot be checked is refused, where a MIC is required.
    pub open spec fn unchecked(self, why: Refusal<Seq<char>>) -> Option<Refusal<Seq<char>>> {
        if self.integrity {
            Some(why)
        } else {
            None
        }
    }

    /// Why the integrity of an exchange does not hold, where it does not.
    pub open spec fn integrity_refusal(
        self,
        client: ClientChallengeView,
        exchange: ExchangeView,
    ) -> Option<Refusal<Seq<char>>> {
        if !client.integrity {
            self.unchecked(Refusal::NoMic)
        } else {
            match (exchange.negotiate, exchange.challenge) {
                (Some(negotiate), Some(challenge)) => exchange.refusal_over(negotiate, challenge),
                _ => self.unchecked(Refusal::MicUncheckable),
            }
        }
    }

    /// Why a proven response is refused, where it is.
    pub open spec fn refusal(self, client: ClientChallengeView, exchange: ExchangeView) -> Option<
        Refusal<Seq<char>>,
    > {
        match self.channel_refusal(client) {
            Some(why) => Some(why),
            None => self.integrity_refusal(client, exchange),
        }
    }
}

impl ExchangeView {
    /// Why the MIC does not hold over the three messages, where it does not.
    pub open spec fn refusal_over(self, negotiate: Seq<u8>, challenge: Seq<u8>) -> Option<
        Refusal<Seq<char>>,
    > {
        match self.announced {
            Err(why) => Some(Refusal::Unreadable { why }),
            Ok(announced) => if announced != self.server_challenge {
                Some(Refusal::AnotherChallenge)
            } else {
                match exported_key(
                    self.response_key,
                    self.read.proof,
                    self.read.flags,
                    self.read.session_key,
                ) {
                    Err(why) => Some(why),
                    Ok(key) => mic_refusal(key, negotiate, challenge, self.authenticate),
                }
            },
        }
    }
}

/// The hash of a channel, as a client writes it into its response.
#[derive(Clone, Debug, PartialEq, Eq)]
pub struct ChannelBindings([u8; 16]);

impl View for ChannelBindings {
    type V = Seq<u8>;

    closed spec fn view(&self) -> Seq<u8> {
        self.0@
    }
}

impl ChannelBindings {
    /// The channel RFC 5929 section 4 names `tls-server-end-point`, from the hash of the node's
    /// certificate: SHA-256 of its DER where the certificate is signed with MD5 or SHA-1, the
    /// signature's own hash otherwise. The host hashes; this crate reads no certificate.
    #[must_use]
    pub fn tls_server_end_point(certificate_hash: &[u8]) -> (channel: Self)
        ensures
            channel@ == channel_hash(tls_prefix() + certificate_hash@),
    {
        let prefix = "tls-server-end-point:".as_bytes();
        proof {
            reveal_strlit("tls-server-end-point:");
            vstd::string::is_ascii_spec_bytes("tls-server-end-point:");
            assert(prefix@ =~= tls_prefix());
        }
        let mut data: Vec<u8> = Vec::new();
        bytes::append(&mut data, prefix);
        bytes::append(&mut data, certificate_hash);
        assert(data@ =~= tls_prefix() + certificate_hash@);
        Self::of_application_data(data.as_slice())
    }

    /// Any channel, by its application data: four zero words for the two empty addresses, the
    /// data's length, the data, and MD5 over it all.
    #[must_use]
    pub fn of_application_data(data: &[u8]) -> (channel: Self)
        ensures
            channel@ == channel_hash(data@),
    {
        let length: u32 = if data.len() as u64 <= u32::MAX as u64 {
            data.len() as u32
        } else {
            u32::MAX
        };
        let mut structure: Vec<u8> = Vec::new();
        bytes::append_sixteen_zeros(&mut structure);
        bytes::append_le32(&mut structure, length);
        bytes::append(&mut structure, data);
        assert(structure@ =~= bytes::zeros(16) + bytes::le32(stated_length(data@.len())) + data@);
        ChannelBindings(crypto::md5(structure.as_slice()))
    }

    /// The sixteen bytes a client bound to this channel writes.
    #[must_use]
    pub fn hash(&self) -> (hash: [u8; 16])
        ensures
            hash@ == self@,
    {
        self.0
    }
}

/// What a proven response is held to beyond its own words.
#[derive(Clone, Debug)]
pub struct Binding {
    /// The channel the node serves on, where it holds clients to it.
    pub channel: Option<ChannelBindings>,
    /// Whether a response with no verifiable MIC is refused.
    pub integrity: bool,
}

impl Default for Binding {
    fn default() -> (binding: Self)
        ensures
            binding@ == (BindingView { channel: None, integrity: false }),
    {
        Binding { channel: None, integrity: false }
    }
}

impl View for Binding {
    type V = BindingView;

    open spec fn view(&self) -> BindingView {
        BindingView {
            channel: match self.channel {
                Some(channel) => Some(channel@),
                None => None,
            },
            integrity: self.integrity,
        }
    }
}

/// One exchange, as the verifier holds it once the proof has verified.
pub struct Exchange<'a> {
    /// The NEGOTIATE message, where the transport presented it.
    pub negotiate: Option<&'a [u8]>,
    /// The CHALLENGE message, where the transport presented it.
    pub challenge: Option<&'a [u8]>,
    /// The server challenge that the CHALLENGE message announces, or why it is not read.
    pub announced: &'a Result<[u8; 8], String>,
    /// The AUTHENTICATE message as it arrived.
    pub authenticate: &'a [u8],
    /// The same, read.
    pub read: &'a Authenticate,
    /// `NTOWFv2` for the account: the response key.
    pub response_key: &'a [u8; 16],
    /// The server challenge the response proved under.
    pub server_challenge: [u8; 8],
}

impl<'a> View for Exchange<'a> {
    type V = ExchangeView;

    open spec fn view(&self) -> ExchangeView {
        ExchangeView {
            negotiate: match self.negotiate {
                Some(negotiate) => Some(negotiate@),
                None => None,
            },
            challenge: match self.challenge {
                Some(challenge) => Some(challenge@),
                None => None,
            },
            announced: match *self.announced {
                Ok(announced) => Ok(announced@),
                Err(why) => Err(why@),
            },
            authenticate: self.authenticate@,
            read: self.read@,
            response_key: self.response_key@,
            server_challenge: self.server_challenge@,
        }
    }
}

impl Binding {
    /// Hold a proven response to the channel and to its MIC.
    ///
    /// # Errors
    ///
    /// Naming what did not hold.
    pub fn check(&self, client: &ClientChallenge, exchange: &Exchange<'_>) -> (held: Result<
        (),
        AuthenticateError,
    >)
        ensures
            match held {
                Ok(()) => self@.refusal(client@, exchange@) is None,
                Err(why) => self@.refusal(client@, exchange@) == Some(why@),
            },
    {
        if let Some(expected) = &self.channel {
            match &client.channel {
                Some(bound) => {
                    if !bytes::same(bound.as_slice(), expected.0.as_slice()) {
                        return Err(Refusal::AnotherChannel);
                    }
                },
                None => {
                    return Err(Refusal::NoChannel);
                },
            }
        }
        if !client.integrity {
            return self.refuse(Refusal::NoMic);
        }
        let (negotiate, challenge) = match (exchange.negotiate, exchange.challenge) {
            (Some(negotiate), Some(challenge)) => (negotiate, challenge),
            _ => {
                return self.refuse(Refusal::MicUncheckable);
            },
        };

        match exchange.announced {
            Ok(announced) => {
                if !bytes::same(announced.as_slice(), exchange.server_challenge.as_slice()) {
                    return Err(Refusal::AnotherChallenge);
                }
            },
            Err(why) => {
                return Err(Refusal::Unreadable { why: why.clone() });
            },
        }

        let key = session_key(exchange.response_key, &exchange.read.proof, exchange.read)?;
        verify_mic(&key, negotiate, challenge, exchange.authenticate)
    }

    /// What becomes of a response whose MIC cannot be checked.
    fn refuse(&self, why: AuthenticateError) -> (held: Result<(), AuthenticateError>)
        ensures
            match held {
                Ok(()) => self@.unchecked(why@) is None,
                Err(told) => self@.unchecked(why@) == Some(told@),
            },
    {
        if self.integrity {
            Err(why)
        } else {
            Ok(())
        }
    }
}

/// The exported session key: [MS-NLMP] 3.3.2 and 3.4.5.1.
///
/// # Errors
///
/// Where key exchange was negotiated and the encrypted key is not sixteen bytes.
pub fn session_key(
    response_key: &[u8; 16],
    proof_str: &[u8; 16],
    read: &Authenticate,
) -> (key: Result<[u8; 16], AuthenticateError>)
    ensures
        match key {
            Ok(key) => exported_key(
                response_key@,
                proof_str@,
                read@.flags,
                read@.session_key,
            ) == Ok::<_, Refusal<Seq<char>>>(key@),
            Err(why) => exported_key(
                response_key@,
                proof_str@,
                read@.flags,
                read@.session_key,
            ) == Err::<Seq<u8>, _>(why@),
        },
{
    let base = crypto::hmac_md5(response_key.as_slice(), proof_str.as_slice());
    if read.flags & NEGOTIATE_KEY_EXCH == 0 {
        return Ok(base);
    }
    let opened = rc4::rc4(base.as_slice(), read.session_key.as_slice());
    if opened.len() == 16 {
        Ok(bytes::sixteen(opened.as_slice()))
    } else {
        Err(Refusal::SessionKeyLength)
    }
}

/// The MIC over the three messages, compared in constant time.
fn verify_mic(key: &[u8; 16], negotiate: &[u8], challenge: &[u8], authenticate: &[u8]) -> (held:
    Result<(), AuthenticateError>)
    ensures
        match held {
            Ok(()) => mic_refusal(key@, negotiate@, challenge@, authenticate@) is None,
            Err(why) => mic_refusal(key@, negotiate@, challenge@, authenticate@) == Some(why@),
        },
{
    let carried = match Authenticate::mic(authenticate) {
        Some(carried) => carried,
        None => {
            return Err(Refusal::TooShortForMic);
        },
    };
    let mut covered: Vec<u8> = Vec::new();
    bytes::append(&mut covered, negotiate);
    bytes::append(&mut covered, challenge);
    bytes::append(&mut covered, slice_subrange(authenticate, 0, MIC_OFFSET));
    bytes::append_sixteen_zeros(&mut covered);
    bytes::append(
        &mut covered,
        slice_subrange(authenticate, MIC_OFFSET + MIC_LENGTH, authenticate.len()),
    );
    assert(covered@ =~= mic_message(negotiate@, challenge@, authenticate@));
    if crypto::hmac_md5_verifies(key.as_slice(), covered.as_slice(), carried) {
        Ok(())
    } else {
        Err(Refusal::MicMismatch)
    }
}

} // verus!
