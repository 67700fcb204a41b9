//! Authenticate by ntlm: verifies the `NTLMv2` response against the stored hash.
//!
//! A user is read out of a type 3 message and presented as the claim, with the whole message
//! riding as the `ntlm.authenticate` proof. This verifier recomputes what MS-NLMP 3.3.2 says the
//! client computed: from the NT hash the node holds for the user, `NTOWFv2` is HMAC-MD5 over the
//! uppercased user and the domain as the client spelled it, and the `NTProofStr` is HMAC-MD5 under
//! that over the server challenge and the client's blob. Where the recomputed proof is the one in
//! the message, the client knew the password.
//!
//! The server challenge is the node's own: whoever sent the type 2 message tells this verifier
//! with [`Verifier::issued`], and a challenge proves one response and is then spent, so a captured
//! type 3 replayed later meets no outstanding challenge and is refused. Offline throughout: the
//! hashes are configuration, and nothing is asked of a domain controller.
//!
//! A response that has proven is then held to two things its own bytes say, as [MS-NLMP] 3.2.5.1.2
//! has a server do, and the proof covers both. Its timestamp must lie within [`LIFETIME`] of the
//! node's clock, thirty-six hours unless said. And where the node says which service it is
//! ([`Verifier::expecting_target`]), the target name among the response's attribute pairs must be
//! that service: a client relayed from another server names that server and is refused naming
//! both, and a name the client flags as taken from an untrusted source is no name, as the
//! specification says.
//!
//! It is held, too, to the exchange and the channel it belongs to ([`binding`]): where the node
//! says which channel it serves ([`Verifier::bound_to_channel`]) the response must be bound to
//! that one, and where the client says its message carries a MIC and the transport presents the
//! two messages before it, the MIC must verify over all three.
//! [`Verifier::requiring_integrity`] refuses a response whose MIC cannot be checked at all.
//!
//! What is not verified, and refused by name: an `NTLMv1` or LM response. The session key is
//! derived for the MIC and dropped; this verifier proves who and signs nothing.
//!
//! Principal names, the client challenge in a blob and the CHALLENGE message are read by whoever
//! holds their rules: [`questions`] says what is to be read of a claim, and what was read
//! ([`Readings`]) is handed to [`Verifier::verify`], which decides on it.
//! What holds of the verifier as a whole is stated in [`laws`].

pub mod account;
pub mod base64_text;
pub mod binding;
pub mod bytes;
pub mod clock;
pub mod crypto;
pub mod gate;
pub mod laws;
pub mod message;
pub mod presented;
pub mod rc4;
pub mod refusal;
pub mod text;

pub use account::Account;
pub use binding::{Binding, ChannelBindings, Exchange, CHALLENGE_PROOF, NEGOTIATE_PROOF};
pub use clock::now;
pub use gate::{questions, Questions, Verified, Verifier, AUTHENTICATE_PROOF, LIFETIME};
pub use message::Authenticate;
pub use presented::{ClientChallenge, Presented, PrincipalName, Readings, Target};
pub use refusal::AuthenticateError;
