//! The verifier: it recomputes what MS-NLMP 3.3.2 says the client computed, spends the challenge the
//! response proves under, and holds what has proven to its age, its target, its channel and its
//! MIC.

use crate::account::{Account, AccountView};
use crate::base64_text;
use crate::binding::{
    Binding, BindingView, ChannelBindings, Exchange, ExchangeView, CHALLENGE_PROOF, NEGOTIATE_PROOF,
};
use crate::bytes;
use crate::crypto;
use crate::laws::verdicts;
use crate::message;
use crate::message::{Authenticate, AuthenticateView};
use crate::presented;
use crate::presented::{
    ClientChallenge, ClientChallengeView, Presented, PresentedView, Readings, ReadingsView,
};
use crate::refusal::{AuthenticateError, Refusal};
use crate::text;
use vstd::prelude::*;

verus! {

/// The mechanism this verifier verifies.
pub const MECHANISM: &'static str = "ntlm";

/// The proof that carries the AUTHENTICATE message.
pub const AUTHENTICATE_PROOF: &'static str = "ntlm.authenticate";

/// The evidence that names a user by principal name.
pub const USER_EVIDENCE: &'static str = "principal.user";

/// How many challenges may be outstanding before the oldest is forgotten.
pub const OUTSTANDING: usize = 1024;

/// How far a response's own timestamp may lie from the node's clock, in seconds. [MS-NLMP]
/// 3.2.5.1.2 has a server fail a response further off than its `MaxLifetime` and leaves the
/// number to the implementation; thirty-six hours is what its product notes give for current
/// Windows.
pub const LIFETIME: u64 = 36 * 60 * 60;

/// `NTOWFv2`: HMAC-MD5 under the NT hash over the user in upper case, then the domain, UTF-16LE.
pub open spec fn response_key(hash: Seq<u8>, user: Seq<char>, domain: Seq<char>) -> Seq<u8> {
    crypto::hmac_md5_code(hash, text::utf16_le(text::uppercase(user)) + text::utf16_le(domain))
}

/// Whether a message's proof is the one made under `key` for `challenge`.
pub open spec fn proves(key: Seq<u8>, challenge: [u8; 8], read: AuthenticateView) -> bool {
    read.proof == crypto::hmac_md5_code(key, challenge@ + read.blob)
}

/// Whether `at` is the first of the challenges that a message proves under.
pub open spec fn is_first_proven(
    challenges: Seq<[u8; 8]>,
    key: Seq<u8>,
    read: AuthenticateView,
    at: int,
) -> bool {
    &&& 0 <= at < challenges.len()
    &&& proves(key, challenges[at], read)
    &&& forall|i: int| 0 <= i < at ==> !proves(key, #[trigger] challenges[i], read)
}

/// Where the first challenge stands that a message proves under.
pub open spec fn first_proven(
    challenges: Seq<[u8; 8]>,
    key: Seq<u8>,
    read: AuthenticateView,
) -> Option<int> {
    if exists|at: int| is_first_proven(challenges, key, read, at) {
        Some(choose|at: int| is_first_proven(challenges, key, read, at))
    } else {
        None
    }
}

/// The challenges once one more is recorded: at most so many, the oldest forgotten first.
pub open spec fn recorded(challenges: Seq<[u8; 8]>, challenge: [u8; 8]) -> Seq<[u8; 8]> {
    if challenges.len() >= OUTSTANDING {
        challenges.drop_first().push(challenge)
    } else {
        challenges.push(challenge)
    }
}

/// The first account held for `user` in `domain`.
pub open spec fn account_of(
    accounts: Seq<AccountView>,
    user: Seq<char>,
    domain: Seq<char>,
) -> Option<AccountView>
    decreases accounts.len(),
{
    if accounts.len() == 0 {
        None
    } else if accounts.first().is_of(user, domain) {
        Some(accounts.first())
    } else {
        account_of(accounts.drop_first(), user, domain)
    }
}

/// The message presented under `name`, where one is, or why it is refused.
pub open spec fn decoded_proof(claim: PresentedView, name: Seq<char>) -> Result<
    Option<Seq<u8>>,
    Refusal<Seq<char>>,
> {
    match claim.proof_under(name) {
        None => Ok(None),
        Some(encoded) => match base64_text::decoded(text::trimmed(encoded)) {
            Some(bytes) => Ok(Some(bytes)),
            None => Err(Refusal::ProofNotBase64 { name }),
        },
    }
}

/// The AUTHENTICATE message of a claim, as it arrived and as it reads.
pub struct OpenedView {
    pub bytes: Seq<u8>,
    pub read: AuthenticateView,
}

/// The AUTHENTICATE message of a claim, or why it is refused.
pub open spec fn opened(claim: PresentedView) -> Result<OpenedView, Refusal<Seq<char>>> {
    if claim.mechanism != MECHANISM@ {
        Err(Refusal::AnotherMechanism { presented: claim.mechanism })
    } else {
        match claim.proof_under(AUTHENTICATE_PROOF@) {
            None => Err(Refusal::NoMessage),
            Some(encoded) => match base64_text::decoded(text::trimmed(encoded)) {
                None => Err(Refusal::MessageNotBase64),
                Some(bytes) => match message::parsed(bytes) {
                    Err(why) => Err(why),
                    Ok(read) => Ok(OpenedView { bytes, read }),
                },
            },
        }
    }
}

/// What the readers of names and of NTLM messages are asked to read of a claim.
pub struct QuestionsView {
    pub user: Seq<char>,
    pub domain: Seq<char>,
    pub value: Seq<char>,
    pub evidence: Seq<Seq<char>>,
    pub blob: Seq<u8>,
    pub challenge: Option<Seq<u8>>,
}

/// What is to be read of a claim, or why it is refused unread.
pub open spec fn asked(claim: PresentedView) -> Result<QuestionsView, Refusal<Seq<char>>> {
    match opened(claim) {
        Err(why) => Err(why),
        Ok(opened) => Ok(
            QuestionsView {
                user: opened.read.user,
                domain: opened.read.domain,
                value: claim.value,
                evidence: presented::all_named(claim.evidence, USER_EVIDENCE@),
                blob: opened.read.blob,
                challenge: match decoded_proof(claim, CHALLENGE_PROOF@) {
                    Ok(challenge) => challenge,
                    Err(_) => None,
                },
            },
        ),
    }
}

/// Why a message does not name the user claimed, as written, where it does not.
pub open spec fn user_refusal(read: AuthenticateView, claim: PresentedView) -> Option<
    Refusal<Seq<char>>,
> {
    if read.user == claim.value {
        None
    } else {
        Some(Refusal::AnotherUser)
    }
}

/// Why a message does not name the account claimed, where it does not. Where its user and domain
/// form a user principal name, a claim that is one and any `principal.user` evidence must be the
/// same account; a claim that is a bare user is the message's user exactly.
pub open spec fn claim_refusal(
    read: AuthenticateView,
    claim: PresentedView,
    readings: ReadingsView,
) -> Option<Refusal<Seq<char>>> {
    let filed = presented::all_named(claim.evidence, USER_EVIDENCE@);
    match readings.message {
        None => user_refusal(read, claim),
        Some(message) => if readings.value is None && user_refusal(read, claim) is Some {
            user_refusal(read, claim)
        } else if readings.value is Some && !readings.value->Some_0.is_message {
            Some(Refusal::AnotherAccount { message, claim: readings.value->Some_0.text })
        } else {
            match readings.first_other(filed.len()) {
                Some(other) => Some(Refusal::AnotherAccount { message, claim: other.text }),
                None => None,
            }
        },
    }
}

/// How far a response lies from the node's clock, in seconds.
pub open spec fn apart(now: i64, made_at: u64) -> int {
    let made = if made_at <= i64::MAX {
        made_at as int
    } else {
        i64::MAX as int
    };
    if now >= made {
        now - made
    } else {
        made - now
    }
}

/// The verifier: what it holds of its users, the challenges outstanding, and what it holds a proven
/// response to.
pub struct VerifierView {
    pub accounts: Seq<AccountView>,
    pub challenges: Seq<[u8; 8]>,
    pub target: Option<Seq<char>>,
    pub lifetime: u64,
    pub binding: BindingView,
}

/// What becomes of a claim: why it is refused, where it is, and which challenge is spent, where
/// one is.
pub struct Verdict {
    pub refusal: Option<Refusal<Seq<char>>>,
    pub spent: Option<int>,
}

impl VerifierView {
    /// Whether no more challenges are outstanding than may be.
    pub open spec fn is_bounded(self) -> bool {
        self.challenges.len() <= OUTSTANDING
    }

    /// Why the age of a response does not hold, where it does not.
    pub open spec fn age_refusal(self, client: ClientChallengeView, now: i64) -> Option<
        Refusal<Seq<char>>,
    > {
        let apart = apart(now, client.made_at);
        if apart > self.lifetime {
            Some(Refusal::TooFarOff { apart: apart as u64, lifetime: self.lifetime })
        } else {
            None
        }
    }

    /// Why the target of a response does not hold, where it does not.
    pub open spec fn target_refusal(self, client: ClientChallengeView) -> Option<
        Refusal<Seq<char>>,
    > {
        match (self.target, client.target) {
            (None, _) => None,
            (Some(expected), None) => if client.untrusted {
                Some(Refusal::TargetUntrusted { expected })
            } else {
                Some(Refusal::NoTarget { expected })
            },
            (Some(expected), Some(named)) => if named.is_expected {
                None
            } else {
                Some(Refusal::AnotherTarget { named: named.text, expected })
            },
        }
    }

    /// Why a proven response is refused by its own words, where it is.
    pub open spec fn words_refusal(self, client: ClientChallengeView, now: i64) -> Option<
        Refusal<Seq<char>>,
    > {
        match self.age_refusal(client, now) {
            Some(why) => Some(why),
            None => self.target_refusal(client),
        }
    }

    /// Whether a proven response is held to anything but its age.
    pub open spec fn is_strict(self) -> bool {
        self.target is Some || self.binding.channel is Some || self.binding.integrity
    }

    /// Why a proven response that holds no client challenge is refused, where it is: it names no
    /// target, is bound to no channel and says nothing of a MIC.
    pub open spec fn silence_refusal(self) -> Option<Refusal<Seq<char>>> {
        match self.target {
            Some(expected) => Some(Refusal::NoTarget { expected }),
            None => if self.binding.channel is Some {
                Some(Refusal::NoChannel)
            } else {
                self.binding.unchecked(Refusal::NoMic)
            },
        }
    }

    /// Why a response that has proven under `server_challenge` is refused after all, where it is.
    pub open spec fn proven_refusal(
        self,
        claim: PresentedView,
        readings: ReadingsView,
        now: i64,
        opened: OpenedView,
        key: Seq<u8>,
        server_challenge: Seq<u8>,
    ) -> Option<Refusal<Seq<char>>> {
        match readings.client {
            Err(why) => Some(Refusal::Unreadable { why }),
            Ok(None) => self.silence_refusal(),
            Ok(Some(client)) => match self.words_refusal(client, now) {
                Some(why) => Some(why),
                None => match (
                    decoded_proof(claim, NEGOTIATE_PROOF@),
                    decoded_proof(claim, CHALLENGE_PROOF@),
                ) {
                    (Err(why), _) => Some(why),
                    (_, Err(why)) => Some(why),
                    (Ok(negotiate), Ok(challenge)) => self.binding.refusal(
                        client,
                        ExchangeView {
                            negotiate,
                            challenge,
                            announced: readings.challenge,
                            authenticate: opened.bytes,
                            read: opened.read,
                            response_key: key,
                            server_challenge,
                        },
                    ),
                },
            },
        }
    }

    /// What becomes of a claim whose message is open.
    pub open spec fn verdict_on(
        self,
        claim: PresentedView,
        readings: ReadingsView,
        now: i64,
        opened: OpenedView,
    ) -> Verdict {
        let read = opened.read;
        let refused = |why: Refusal<Seq<char>>| Verdict { refusal: Some(why), spent: None };
        match claim_refusal(read, claim, readings) {
            Some(why) => refused(why),
            None => match account_of(self.accounts, read.user, read.domain) {
                None => refused(Refusal::NoAccount { user: read.user, domain: read.domain }),
                Some(account) => {
                    let key = response_key(account.hash, read.user, read.domain);
                    if self.challenges.len() == 0 {
                        refused(Refusal::NoChallenge)
                    } else {
                        match first_proven(self.challenges, key, read) {
                            None => refused(Refusal::NotProven),
                            Some(at) => Verdict {
                                refusal: self.proven_refusal(
                                    claim,
                                    readings,
                                    now,
                                    opened,
                                    key,
                                    self.challenges[at]@,
                                ),
                                spent: Some(at),
                            },
                        }
                    }
                },
            },
        }
    }

    /// What becomes of a claim.
    pub open spec fn verdict(
        self,
        claim: PresentedView,
        readings: ReadingsView,
        now: i64,
    ) -> Verdict {
        match opened(claim) {
            Err(why) => Verdict { refusal: Some(why), spent: None },
            Ok(opened) => self.verdict_on(claim, readings, now, opened),
        }
    }

    /// The verifier once the challenge at `at` is spent, or as it was where none is.
    pub open spec fn spending(self, at: Option<int>) -> VerifierView {
        match at {
            None => self,
            Some(at) => VerifierView { challenges: self.challenges.remove(at), ..self },
        }
    }
}

/// What a claim that holds is found to be.
#[derive(Clone, Copy, Debug, PartialEq, Eq, Structural)]
pub enum Verified {
    Proven,
}

/// The AUTHENTICATE message of a claim, as it arrived and as it reads.
#[derive(Debug)]
pub struct Opened {
    /// The message as it arrived.
    pub bytes: Vec<u8>,
    /// The same, read.
    pub read: Authenticate,
}

impl View for Opened {
    type V = OpenedView;

    open spec fn view(&self) -> OpenedView {
        OpenedView { bytes: self.bytes@, read: self.read@ }
    }
}

/// The AUTHENTICATE message of a claim.
///
/// # Errors
///
/// Where the claim is made by another mechanism, or presents no AUTHENTICATE message.
pub fn open(claim: &Presented) -> (message: Result<Opened, AuthenticateError>)
    ensures
        match message {
            Ok(message) => opened(claim@) == Ok::<_, Refusal<Seq<char>>>(message@),
            Err(why) => opened(claim@) == Err::<OpenedView, _>(why@),
        },
{
    if claim.mechanism != MECHANISM.to_owned() {
        return Err(Refusal::AnotherMechanism { presented: claim.mechanism.clone() });
    }
    let encoded = match claim.proof_under(AUTHENTICATE_PROOF) {
        Some(encoded) => encoded,
        None => {
            return Err(Refusal::NoMessage);
        },
    };
    let bytes = match base64_text::decode(encoded.as_str().trim()) {
        Some(bytes) => bytes,
        None => {
            return Err(Refusal::MessageNotBase64);
        },
    };
    let read = Authenticate::parse(bytes.as_slice())?;
    Ok(Opened { bytes, read })
}

/// A message the transport presented as a proof, where it did.
pub fn decoded(claim: &Presented, name: &str) -> (message: Result<
    Option<Vec<u8>>,
    AuthenticateError,
>)
    ensures
        match message {
            Ok(Some(bytes)) => decoded_proof(claim@, name@) == Ok::<_, Refusal<Seq<char>>>(
                Some(bytes@),
            ),
            Ok(None) => decoded_proof(claim@, name@) == Ok::<_, Refusal<Seq<char>>>(
                None::<Seq<u8>>,
            ),
            Err(why) => decoded_proof(claim@, name@) == Err::<Option<Seq<u8>>, _>(why@),
        },
{
    match claim.proof_under(name) {
        None => Ok(None),
        Some(encoded) => match base64_text::decode(encoded.as_str().trim()) {
            Some(bytes) => Ok(Some(bytes)),
            None => Err(Refusal::ProofNotBase64 { name: name.to_owned() }),
        },
    }
}

/// What the readers of names and of NTLM messages are asked to read of a claim. What they make
/// of it are its [`Readings`].
#[derive(Debug)]
pub struct Questions {
    /// The user of the AUTHENTICATE message; with the domain, it may form a user principal name.
    pub user: String,
    /// The domain of the AUTHENTICATE message.
    pub domain: String,
    /// The claimed value, which may be a user principal name.
    pub value: String,
    /// All the `principal.user` evidence, in the order it was filed, each of which may be a user
    /// principal name.
    pub evidence: Vec<String>,
    /// The response's blob, which may hold a client challenge.
    pub blob: Vec<u8>,
    /// The CHALLENGE message, where one is presented.
    pub challenge: Option<Vec<u8>>,
}

impl View for Questions {
    type V = QuestionsView;

    open spec fn view(&self) -> QuestionsView {
        QuestionsView {
            user: self.user@,
            domain: self.domain@,
            value: self.value@,
            evidence: presented::texts(self.evidence@),
            blob: self.blob@,
            challenge: match self.challenge {
                Some(challenge) => Some(challenge@),
                None => None,
            },
        }
    }
}

/// What is to be read of a claim before it can be verified.
///
/// # Errors
///
/// Where the claim is refused unread: it is made by another mechanism, or presents no AUTHENTICATE
/// message.
pub fn questions(claim: &Presented) -> (questions: Result<Questions, AuthenticateError>)
    ensures
        match questions {
            Ok(questions) => asked(claim@) == Ok::<_, Refusal<Seq<char>>>(questions@),
            Err(why) => asked(claim@) == Err::<QuestionsView, _>(why@),
        },
{
    let message = open(claim)?;
    let evidence = claim.evidence_under(USER_EVIDENCE);
    let challenge = match decoded(claim, CHALLENGE_PROOF) {
        Ok(challenge) => challenge,
        Err(_) => None,
    };
    Ok(
        Questions {
            user: message.read.user,
            domain: message.read.domain,
            value: claim.value.clone(),
            evidence,
            blob: message.read.blob,
            challenge,
        },
    )
}

/// `NTOWFv2`: HMAC-MD5 under the NT hash over uppercase(user) then the domain, UTF-16LE. MS-NLMP
/// 3.3.2.
pub fn ntowf_v2(hash: &[u8; 16], user: &str, domain: &str) -> (key: [u8; 16])
    ensures
        key@ == response_key(hash@, user@, domain@),
        key@ == crypto::hmac_md5_code(
            hash@,
            text::utf16_le(text::uppercase(user@) + domain@),
        ),
{
    let mut names: Vec<u8> = Vec::new();
    text::append_utf16_le(&mut names, user.to_uppercase().as_str());
    text::append_utf16_le(&mut names, domain);
    assert(names@ =~= text::utf16_le(text::uppercase(user@)) + text::utf16_le(domain@));
    proof {
        verdicts::the_response_key_covers_the_whole_user_and_domain(hash@, user@, domain@);
    }
    crypto::hmac_md5(hash.as_slice(), names.as_slice())
}

/// The comparison where no domain is present: the user, as written.
fn exactly(read: &Authenticate, claim: &Presented) -> (held: Result<(), AuthenticateError>)
    ensures
        match held {
            Ok(()) => user_refusal(read@, claim@) is None,
            Err(why) => user_refusal(read@, claim@) == Some(why@),
        },
{
    if read.user == claim.value {
        Ok(())
    } else {
        Err(Refusal::AnotherUser)
    }
}

/// The first piece of evidence that is another account's is the first among more of it too.
pub(crate) proof fn lemma_first_other_stays(readings: ReadingsView, some: nat, more: nat)
    requires
        some <= more,
        readings.first_other(some) is Some,
    ensures
        readings.first_other(more) == readings.first_other(some),
    decreases more,
{
    if some < more {
        lemma_first_other_stays(readings, some, (more - 1) as nat);
    }
}

/// Whether the type 3 message names the account the claim does. Where the message's user and
/// domain form a user principal name, a claim that is one and any `principal.user` evidence must
/// be the same account; a claim that is a bare user is the message's user exactly.
///
/// # Errors
///
/// Where it names another, naming both.
pub fn claimed_by(read: &Authenticate, claim: &Presented, readings: &Readings) -> (held: Result<
    (),
    AuthenticateError,
>)
    ensures
        match held {
            Ok(()) => claim_refusal(read@, claim@, readings@) is None,
            Err(why) => claim_refusal(read@, claim@, readings@) == Some(why@),
        },
{
    let message = match &readings.message {
        Some(message) => message,
        None => {
            return exactly(read, claim);
        },
    };
    match &readings.value {
        None => exactly(read, claim)?,
        Some(value) => if !value.is_message {
            return Err(
                Refusal::AnotherAccount { message: message.clone(), claim: value.text.clone() },
            );
        },
    }
    let filed = claim.evidence_under(USER_EVIDENCE);
    for at in 0..filed.len()
        invariant
            readings@.first_other(at as nat) is None,
            readings@.message == Some(message@),
            claim_refusal(read@, claim@, readings@) == match readings@.first_other(filed@.len()) {
                Some(other) => Some(
                    Refusal::AnotherAccount { message: message@, claim: other.text },
                ),
                None => None,
            },
    {
        if at < readings.evidence.len() {
            if let Some(other) = &readings.evidence[at] {
                if !other.is_message {
                    proof {
                        lemma_first_other_stays(readings@, (at + 1) as nat, filed@.len());
                    }
                    return Err(
                        Refusal::AnotherAccount {
                            message: message.clone(),
                            claim: other.text.clone(),
                        },
                    );
                }
            }
        }
    }
    Ok(())
}

/// The ntlm verifier: the accounts the node holds, the challenges it has issued and not yet seen
/// answered, and what it holds a proven response to, its age and the service the client meant to
/// reach among it.
pub struct Verifier {
    accounts: Vec<Account>,
    challenges: Vec<[u8; 8]>,
    target: Option<String>,
    lifetime: u64,
    binding: Binding,
}

impl View for Verifier {
    type V = VerifierView;

    closed spec fn view(&self) -> VerifierView {
        VerifierView {
            accounts: self.accounts@.map_values(|account: Account| account@),
            challenges: self.challenges@,
            target: match self.target {
                Some(target) => Some(target@),
                None => None,
            },
            lifetime: self.lifetime,
            binding: self.binding@,
        }
    }
}

impl Verifier {
    /// Verifies against these accounts, with no challenge outstanding, any target and the
    /// specification's lifetime.
    #[must_use]
    pub fn new(accounts: Vec<Account>) -> (gate: Self)
        ensures
            gate@ == (VerifierView {
                accounts: accounts@.map_values(|account: Account| account@),
                challenges: seq![],
                target: None,
                lifetime: LIFETIME,
                binding: BindingView { channel: None, integrity: false },
            }),
            gate@.is_bounded(),
    {
        let gate = Verifier {
            accounts,
            challenges: Vec::new(),
            target: None,
            lifetime: LIFETIME,
            binding: Binding::default(),
        };
        assert(gate.challenges@ =~= seq![]);
        gate
    }

    /// Hold the client to the channel this node serves on: the response must be bound to it, and
    /// one bound to another or to none is refused.
    #[must_use]
    pub fn bound_to_channel(self, channel: ChannelBindings) -> (gate: Self)
        ensures
            gate@ == (VerifierView {
                binding: BindingView { channel: Some(channel@), ..self@.binding },
                ..self@
            }),
    {
        let binding = Binding { channel: Some(channel), integrity: self.binding.integrity };
        Verifier { binding, ..self }
    }

    /// Refuse a response whose MIC cannot be checked: the client says it carries none, or the
    /// transport presented no messages to check it over.
    #[must_use]
    pub fn requiring_integrity(self) -> (gate: Self)
        ensures
            gate@ == (VerifierView {
                binding: BindingView { integrity: true, ..self@.binding },
                ..self@
            }),
    {
        let mut gate = self;
        gate.binding.integrity = true;
        gate
    }

    /// Hold the client to this service: the target name its response carries must be the same
    /// service. A client relayed from another server names that server, and is refused. A
    /// response that names no target, or flags its target as taken from an untrusted source,
    /// which [MS-NLMP] 3.2.5.1.2 has a server treat as none, is refused too.
    #[must_use]
    pub fn expecting_target(self, service: &str) -> (gate: Self)
        ensures
            gate@ == (VerifierView { target: Some(service@), ..self@ }),
    {
        let mut gate = self;
        gate.target = Some(service.to_owned());
        gate
    }

    /// How far a response's timestamp may lie from the node's clock.
    #[must_use]
    pub fn with_lifetime(self, seconds: u64) -> (gate: Self)
        ensures
            gate@ == (VerifierView { lifetime: seconds, ..self@ }),
    {
        let mut gate = self;
        gate.lifetime = seconds;
        gate
    }

    /// The name of the mechanism this verifier verifies.
    pub fn mechanism(&self) -> (name: &'static str)
        ensures
            name@ == "ntlm"@,
    {
        MECHANISM
    }

    /// What a response that has proven is still held to. The proof covers every byte read here,
    /// so by now these are the client's own words.
    fn held_to(&self, client: &ClientChallenge, now: i64) -> (held: Result<(), AuthenticateError>)
        ensures
            match held {
                Ok(()) => self@.words_refusal(client@, now) is None,
                Err(why) => self@.words_refusal(client@, now) == Some(why@),
            },
    {
        let made: i128 = if client.made_at <= i64::MAX as u64 {
            client.made_at as i128
        } else {
            i64::MAX as i128
        };
        let apart: u64 = if now as i128 >= made {
            (now as i128 - made) as u64
        } else {
            (made - now as i128) as u64
        };
        if apart > self.lifetime {
            return Err(Refusal::TooFarOff { apart, lifetime: self.lifetime });
        }
        let expected = match &self.target {
            Some(expected) => expected,
            None => {
                return Ok(());
            },
        };
        match &client.target {
            None => if client.untrusted {
                Err(Refusal::TargetUntrusted { expected: expected.clone() })
            } else {
                Err(Refusal::NoTarget { expected: expected.clone() })
            },
            Some(named) => if named.is_expected {
                Ok(())
            } else {
                Err(
                    Refusal::AnotherTarget { named: named.text.clone(), expected: expected.clone() },
                )
            },
        }
    }

    /// What a response that has proven and holds no client challenge is still held to.
    fn silent(&self) -> (held: Result<(), AuthenticateError>)
        ensures
            match held {
                Ok(()) => self@.silence_refusal() is None,
                Err(why) => self@.silence_refusal() == Some(why@),
            },
    {
        if let Some(expected) = &self.target {
            return Err(Refusal::NoTarget { expected: expected.clone() });
        }
        if self.binding.channel.is_some() {
            return Err(Refusal::NoChannel);
        }
        if self.binding.integrity {
            return Err(Refusal::NoMic);
        }
        Ok(())
    }

    /// Record a server challenge the node sent in a type 2 message. It proves one response and is
    /// then spent.
    pub fn issued(&mut self, challenge: [u8; 8])
        ensures
            final(self)@ == (VerifierView {
                challenges: recorded(old(self)@.challenges, challenge),
                ..old(self)@
            }),
            old(self)@.is_bounded() ==> final(self)@.is_bounded(),
    {
        if self.challenges.len() >= OUTSTANDING {
            let oldest = self.challenges.remove(0);
        }
        self.challenges.push(challenge);
        assert(self.challenges@ =~= recorded(old(self)@.challenges, challenge));
    }

    /// Spend the outstanding challenge the response proves under, if any.
    fn spend(&mut self, key: &[u8; 16], read: &Authenticate) -> (spent: Option<[u8; 8]>)
        ensures
            match first_proven(old(self)@.challenges, key@, read@) {
                Some(at) => {
                    &&& is_first_proven(old(self)@.challenges, key@, read@, at)
                    &&& spent == Some(old(self)@.challenges[at])
                    &&& final(self)@ == old(self)@.spending(Some(at))
                },
                None => spent is None && final(self)@ == old(self)@,
            },
    {
        let ghost challenges = self.challenges@;
        let count: usize = self.challenges.len();
        for at in 0..count
            invariant
                count == challenges.len(),
                *self == *old(self),
                challenges == self.challenges@,
                forall|i: int| 0 <= i < at ==> !proves(key@, #[trigger] challenges[i], read@),
        {
            let challenge: [u8; 8] = self.challenges[at];
            let mut covered: Vec<u8> = Vec::new();
            bytes::append(&mut covered, challenge.as_slice());
            bytes::append(&mut covered, read.blob.as_slice());
            assert(covered@ =~= challenge@ + read.blob@);
            if crypto::hmac_md5_verifies(
                key.as_slice(),
                covered.as_slice(),
                read.proof.as_slice(),
            ) {
                proof {
                    assert(is_first_proven(challenges, key@, read@, at as int));
                    let first = first_proven(challenges, key@, read@)->Some_0;
                    assert(first == at);
                }
                let spent = self.challenges.remove(at);
                return Some(spent);
            }
        }
        assert(forall|at: int| !is_first_proven(challenges, key@, read@, at));
        None
    }

    /// The account held for a user.
    fn account(&self, user: &str, domain: &str) -> (account: Option<&Account>)
        ensures
            match account {
                Some(account) => account_of(self@.accounts, user@, domain@) == Some(account@),
                None => account_of(self@.accounts, user@, domain@) is None,
            },
    {
        let ghost all = self@.accounts;
        assert(all.skip(0) =~= all);
        for at in 0..self.accounts.len()
            invariant
                all == self@.accounts,
                account_of(all, user@, domain@) == account_of(all.skip(at as int), user@, domain@),
        {
            assert(all.skip(at as int).drop_first() =~= all.skip(at + 1));
            if self.accounts[at].is(user, domain) {
                return Some(&self.accounts[at]);
            }
        }
        None
    }

    /// Verify a claim, by what its readers made of it and the node's clock.
    ///
    /// # Errors
    ///
    /// Naming what did not hold.
    pub fn verify(&mut self, claim: &Presented, readings: &Readings, now: i64) -> (found: Result<
        Verified,
        AuthenticateError,
    >)
        ensures
            match found {
                Ok(Verified::Proven) => old(self)@.verdict(claim@, readings@, now).refusal is None,
                Err(why) => old(self)@.verdict(claim@, readings@, now).refusal == Some(why@),
            },
            final(self)@ == old(self)@.spending(
                old(self)@.verdict(claim@, readings@, now).spent,
            ),
            old(self)@.is_bounded() ==> final(self)@.is_bounded(),
    {
        let message = open(claim)?;
        claimed_by(&message.read, claim, readings)?;
        let account = match self.account(message.read.user.as_str(), message.read.domain.as_str()) {
            Some(account) => account,
            None => {
                return Err(
                    Refusal::NoAccount {
                        user: message.read.user.clone(),
                        domain: message.read.domain.clone(),
                    },
                );
            },
        };
        if self.challenges.is_empty() {
            return Err(Refusal::NoChallenge);
        }
        let key = ntowf_v2(
            account.hash(),
            message.read.user.as_str(),
            message.read.domain.as_str(),
        );
        let server_challenge = match self.spend(&key, &message.read) {
            Some(server_challenge) => server_challenge,
            None => {
                return Err(Refusal::NotProven);
            },
        };
        let client = match &readings.client {
            Ok(Some(client)) => client,
            Ok(None) => {
                self.silent()?;
                return Ok(Verified::Proven);
            },
            Err(why) => {
                return Err(Refusal::Unreadable { why: why.clone() });
            },
        };

        self.held_to(client, now)?;
        let negotiate = decoded(claim, NEGOTIATE_PROOF)?;
        let challenge = decoded(claim, CHALLENGE_PROOF)?;
        let exchange = Exchange {
            negotiate: match &negotiate {
                Some(bytes) => Some(bytes.as_slice()),
                None => None,
            },
            challenge: match &challenge {
                Some(bytes) => Some(bytes.as_slice()),
                None => None,
            },
            announced: &readings.challenge,
            authenticate: message.bytes.as_slice(),
            read: &message.read,
            response_key: &key,
            server_challenge,
        };
        self.binding.check(client, &exchange)?;
        Ok(Verified::Proven)
    }
}

} // verus!
