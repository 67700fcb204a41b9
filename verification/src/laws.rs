//! What holds of the verifier as a whole.

pub mod claims;
pub mod messages;
pub mod sealing;
pub mod texts;
pub mod verdicts;
pub mod words;

use crate::account;
use crate::account::AccountView;
use crate::base64_text;
use crate::binding;
use crate::bytes;
use crate::crypto;
use crate::gate;
use crate::gate::{OpenedView, VerifierView, OUTSTANDING};
use crate::message;
use crate::message::{
    AuthenticateView, DOMAIN_FIELDS, FLAGS, MIC_LENGTH, MIC_OFFSET, NEGOTIATE_KEY_EXCH,
    NT_RESPONSE_FIELDS, PROOF_LENGTH, SESSION_KEY_FIELDS, USER_FIELDS,
};
use crate::presented;
use crate::presented::{ClientChallengeView, PresentedView, ReadingsView};
use crate::rc4;
use crate::refusal::Refusal;
use crate::text;
use vstd::prelude::*;

verus! {

/// The response key that the verifier holds for the message of a claim, where it holds one.
pub open spec fn held_key(gate: VerifierView, read: AuthenticateView) -> Option<Seq<u8>> {
    match gate::account_of(gate.accounts, read.user, read.domain) {
        Some(account) => Some(gate::response_key(account.hash, read.user, read.domain)),
        None => None,
    }
}

/// Whether a claim's message proves, under the key the verifier holds, for some outstanding challenge.
pub open spec fn proves_outstanding(gate: VerifierView, read: AuthenticateView) -> bool {
    match held_key(gate, read) {
        Some(key) => exists|i: int|
            0 <= i < gate.challenges.len() && gate::proves(key, #[trigger] gate.challenges[i], read),
        None => false,
    }
}

/// The first of the challenges that a message proves under is found wherever there is one.
proof fn lemma_first_proven(challenges: Seq<[u8; 8]>, key: Seq<u8>, read: AuthenticateView, at: int)
    requires
        0 <= at < challenges.len(),
        gate::proves(key, challenges[at], read),
    ensures
        gate::first_proven(challenges, key, read) is Some,
    decreases at,
{
    if forall|i: int| 0 <= i < at ==> !gate::proves(key, #[trigger] challenges[i], read) {
        assert(gate::is_first_proven(challenges, key, read, at));
    } else {
        let earlier = choose|i: int|
            0 <= i < at && gate::proves(key, #[trigger] challenges[i], read);
        lemma_first_proven(challenges, key, read, earlier);
    }
}

/// Who is found proven knew the hash: the proof in the message is HMAC-MD5, under the response key
/// of the account held for its user and domain, over the challenge spent and the blob.
pub proof fn what_is_proven_answers_an_outstanding_challenge(
    gate: VerifierView,
    claim: PresentedView,
    readings: ReadingsView,
    now: i64,
)
    requires
        gate.verdict(claim, readings, now).refusal is None,
    ensures
        gate::opened(claim) is Ok,
        held_key(gate, gate::opened(claim)->Ok_0.read) is Some,
        gate.verdict(claim, readings, now).spent is Some,
        ({
            let read = gate::opened(claim)->Ok_0.read;
            let at = gate.verdict(claim, readings, now).spent->Some_0;
            &&& 0 <= at < gate.challenges.len()
            &&& read.proof == crypto::hmac_md5_code(
                held_key(gate, read)->Some_0,
                gate.challenges[at]@ + read.blob,
            )
        }),
{
}

/// A claim spends at most one challenge, spends the oldest its message proves under, and changes
/// nothing else; whatever becomes of a response that has proven, its challenge is spent.
pub proof fn a_challenge_is_spent_exactly_where_the_response_proves(
    gate: VerifierView,
    claim: PresentedView,
    readings: ReadingsView,
    now: i64,
)
    ensures
        match gate.verdict(claim, readings, now).spent {
            None => gate.verdict(claim, readings, now).refusal is Some,
            Some(at) => {
                &&& 0 <= at < gate.challenges.len()
                &&& gate.spending(Some(at)).challenges.len() == gate.challenges.len() - 1
                &&& gate::opened(claim) is Ok
                &&& held_key(gate, gate::opened(claim)->Ok_0.read) is Some
                &&& gate::is_first_proven(
                    gate.challenges,
                    held_key(gate, gate::opened(claim)->Ok_0.read)->Some_0,
                    gate::opened(claim)->Ok_0.read,
                    at,
                )
            },
        },
        (gate::opened(claim) matches Ok(opened) && gate::claim_refusal(
            opened.read,
            claim,
            readings,
        ) is None && proves_outstanding(gate, opened.read)) <==> gate.verdict(
            claim,
            readings,
            now,
        ).spent is Some,
{
    if let Ok(opened) = gate::opened(claim) {
        if proves_outstanding(gate, opened.read) {
            let key = held_key(gate, opened.read)->Some_0;
            let at = choose|i: int|
                0 <= i < gate.challenges.len() && gate::proves(
                    key,
                    #[trigger] gate.challenges[i],
                    opened.read,
                );
            lemma_first_proven(gate.challenges, key, opened.read, at);
        }
    }
}

/// A response that proves under no outstanding challenge is refused, and every challenge stays
/// outstanding for a response that does.
pub proof fn what_does_not_prove_is_refused_and_spends_nothing(
    gate: VerifierView,
    claim: PresentedView,
    readings: ReadingsView,
    now: i64,
)
    requires
        gate::opened(claim) matches Ok(opened) ==> !proves_outstanding(gate, opened.read),
    ensures
        gate.verdict(claim, readings, now).refusal is Some,
        gate.verdict(claim, readings, now).spent is None,
        gate.spending(gate.verdict(claim, readings, now).spent) == gate,
{
    a_challenge_is_spent_exactly_where_the_response_proves(gate, claim, readings, now);
}

/// What may befall a verifier: a challenge is issued, or a claim is verified.
pub enum Event {
    Issued { challenge: [u8; 8] },
    Verified { claim: PresentedView, readings: ReadingsView, now: i64 },
}

/// The verifier once one thing more has befallen it.
pub open spec fn after(gate: VerifierView, event: Event) -> VerifierView {
    match event {
        Event::Issued { challenge } => VerifierView {
            challenges: gate::recorded(gate.challenges, challenge),
            ..gate
        },
        Event::Verified { claim, readings, now } => gate.spending(
            gate.verdict(claim, readings, now).spent,
        ),
    }
}

/// The verifier once all of this has befallen it, one thing after another.
pub open spec fn after_all(gate: VerifierView, events: Seq<Event>) -> VerifierView
    decreases events.len(),
{
    if events.len() == 0 {
        gate
    } else {
        after(after_all(gate, events.drop_last()), events.last())
    }
}

/// Whether a message proves under none of the challenges.
pub open spec fn proves_none(
    challenges: Seq<[u8; 8]>,
    key: Seq<u8>,
    read: AuthenticateView,
) -> bool {
    forall|i: int| 0 <= i < challenges.len() ==> !gate::proves(key, #[trigger] challenges[i], read)
}

/// Whether a message proves under none of the challenges issued among these events.
pub open spec fn proves_none_issued(
    events: Seq<Event>,
    key: Seq<u8>,
    read: AuthenticateView,
) -> bool {
    forall|i: int|
        0 <= i < events.len() && (#[trigger] events[i]) is Issued ==> !gate::proves(
            key,
            events[i]->challenge,
            read,
        )
}

/// Where a message proves under none of the challenges outstanding, nor under any issued since, it
/// proves under none of those outstanding then.
proof fn lemma_none_proven(
    gate: VerifierView,
    events: Seq<Event>,
    key: Seq<u8>,
    read: AuthenticateView,
)
    requires
        proves_none(gate.challenges, key, read),
        proves_none_issued(events, key, read),
    ensures
        proves_none(after_all(gate, events).challenges, key, read),
        after_all(gate, events).accounts == gate.accounts,
    decreases events.len(),
{
    if events.len() > 0 {
        assert forall|i: int|
            0 <= i < events.drop_last().len() && (
            #[trigger] events.drop_last()[i]) is Issued implies !gate::proves(
            key,
            events.drop_last()[i]->challenge,
            read,
        ) by {
            assert(events.drop_last()[i] == events[i]);
        }
        lemma_none_proven(gate, events.drop_last(), key, read);
        let before = after_all(gate, events.drop_last());
        let then = after_all(gate, events);
        if let Event::Verified { claim, readings, now } = events.last() {
            a_challenge_is_spent_exactly_where_the_response_proves(before, claim, readings, now);
        } else {
            assert(events[events.len() - 1] is Issued);
        }
        assert forall|i: int| 0 <= i < then.challenges.len() implies !gate::proves(
            key,
            #[trigger] then.challenges[i],
            read,
        ) by {
            match events.last() {
                Event::Issued { challenge } => {
                    if i == then.challenges.len() - 1 {
                        assert(then.challenges[i] == challenge);
                    } else if before.challenges.len() >= OUTSTANDING {
                        assert(then.challenges[i] == before.challenges[i + 1]);
                    } else {
                        assert(then.challenges[i] == before.challenges[i]);
                    }
                },
                Event::Verified { claim, readings, now } => {
                    match before.verdict(claim, readings, now).spent {
                        None => {},
                        Some(at) => {
                            if i < at {
                                assert(then.challenges[i] == before.challenges[i]);
                            } else {
                                assert(then.challenges[i] == before.challenges[i + 1]);
                            }
                        },
                    }
                },
            }
        }
    }
}

/// A message that has spent its challenge is refused ever after, and spends nothing: where it
/// proves under none of the challenges left, nor under any issued since, it is refused whatever
/// challenges are issued and whatever claims are verified meanwhile, whoever presents it, however
/// it is read and whenever.
pub proof fn a_replayed_response_is_refused(
    gate: VerifierView,
    claim: PresentedView,
    readings: ReadingsView,
    now: i64,
    since: Seq<Event>,
    replayed: PresentedView,
    replayed_readings: ReadingsView,
    later: i64,
)
    requires
        gate.verdict(claim, readings, now).spent is Some,
        gate::opened(replayed) == gate::opened(claim),
        ({
            let read = gate::opened(claim)->Ok_0.read;
            let key = held_key(gate, read)->Some_0;
            let left = after(gate, Event::Verified { claim, readings, now });
            &&& proves_none(left.challenges, key, read)
            &&& proves_none_issued(since, key, read)
        }),
    ensures
        ({
            let left = after(gate, Event::Verified { claim, readings, now });
            let then = after_all(left, since);
            &&& then.verdict(replayed, replayed_readings, later).refusal is Some
            &&& then.verdict(replayed, replayed_readings, later).spent is None
        }),
{
    let read = gate::opened(claim)->Ok_0.read;
    let key = held_key(gate, read)->Some_0;
    let left = after(gate, Event::Verified { claim, readings, now });
    a_challenge_is_spent_exactly_where_the_response_proves(gate, claim, readings, now);
    lemma_none_proven(left, since, key, read);
    what_does_not_prove_is_refused_and_spends_nothing(
        after_all(left, since),
        replayed,
        replayed_readings,
        later,
    );
}

/// What is proven and says when it was made was made within the verifier's lifetime of its clock,
/// no longer before it and no longer after it.
pub proof fn what_is_proven_is_fresh(
    gate: VerifierView,
    claim: PresentedView,
    readings: ReadingsView,
    now: i64,
    client: ClientChallengeView,
)
    requires
        gate.verdict(claim, readings, now).refusal is None,
        readings.client == Ok::<_, Seq<char>>(Some(client)),
    ensures
        gate::apart(now, client.made_at) <= gate.lifetime,
        client.made_at <= i64::MAX ==> now - gate.lifetime <= client.made_at <= now + gate.lifetime,
        client.made_at > i64::MAX ==> i64::MAX <= now + gate.lifetime,
{
}

/// What a verifier that holds a response to a target, a channel or its MIC finds proven holds a
/// client challenge that speaks of them.
pub proof fn what_a_strict_verifier_proves_holds_a_client_challenge(
    gate: VerifierView,
    claim: PresentedView,
    readings: ReadingsView,
    now: i64,
)
    requires
        gate.verdict(claim, readings, now).refusal is None,
        gate.is_strict(),
    ensures
        readings.client matches Ok(Some(_)),
{
}

/// Where the verifier expects a target, what is proven names it, from a source the client trusts.
pub proof fn what_is_proven_was_meant_for_the_node(
    gate: VerifierView,
    claim: PresentedView,
    readings: ReadingsView,
    now: i64,
)
    requires
        gate.verdict(claim, readings, now).refusal is None,
        gate.target is Some,
    ensures
        readings.client matches Ok(Some(client)) && client.target matches Some(target)
            && target.is_expected,
{
}

/// Where the verifier is bound to a channel, what is proven is bound to that one.
pub proof fn what_is_proven_is_bound_to_the_channel(
    gate: VerifierView,
    claim: PresentedView,
    readings: ReadingsView,
    now: i64,
)
    requires
        gate.verdict(claim, readings, now).refusal is None,
        gate.binding.channel is Some,
    ensures
        readings.client matches Ok(Some(client)) && client.channel == gate.binding.channel,
{
}

/// The exported session key of a claim's exchange.
pub open spec fn session_key_of(gate: VerifierView, read: AuthenticateView) -> Result<
    Seq<u8>,
    Refusal<Seq<char>>,
> {
    binding::exported_key(
        held_key(gate, read)->Some_0,
        read.proof,
        read.flags,
        read.session_key,
    )
}

/// Whether there is a MIC to check: the client says that its message carries one, and the two
/// messages before it are presented.
pub open spec fn mic_is_checked(claim: PresentedView, readings: ReadingsView) -> bool {
    &&& readings.client matches Ok(Some(client)) && client.integrity
    &&& gate::decoded_proof(claim, binding::NEGOTIATE_PROOF@) matches Ok(Some(_))
    &&& gate::decoded_proof(claim, binding::CHALLENGE_PROOF@) matches Ok(Some(_))
}

/// Where the client says that its message carries a MIC and the two messages before it are
/// presented, what is proven carries the MIC of all three under the exported session key, and the
/// CHALLENGE message is the one whose challenge was spent. Where the verifier requires integrity, what
/// is proven is of that kind.
pub proof fn what_is_proven_is_whole(
    gate: VerifierView,
    claim: PresentedView,
    readings: ReadingsView,
    now: i64,
)
    requires
        gate.verdict(claim, readings, now).refusal is None,
    ensures
        gate.binding.integrity ==> mic_is_checked(claim, readings),
        mic_is_checked(claim, readings) ==> {
            let opened = gate::opened(claim)->Ok_0;
            let negotiate = gate::decoded_proof(claim, binding::NEGOTIATE_PROOF@)->Ok_0->Some_0;
            let challenge = gate::decoded_proof(claim, binding::CHALLENGE_PROOF@)->Ok_0->Some_0;
            let spent = gate.challenges[gate.verdict(claim, readings, now).spent->Some_0];
            &&& readings.challenge == Ok::<_, Seq<char>>(spent@)
            &&& session_key_of(gate, opened.read) is Ok
            &&& message::mic_of(opened.bytes) == Some(
                crypto::hmac_md5_code(
                    session_key_of(gate, opened.read)->Ok_0,
                    binding::mic_message(negotiate, challenge, opened.bytes),
                ),
            )
        },
{
}

/// Whether the MIC of a response that proved under `spent` is the one made over the three
/// messages, or there is none to check and none is required.
pub open spec fn integrity_holds(
    gate: VerifierView,
    claim: PresentedView,
    readings: ReadingsView,
    client: ClientChallengeView,
    spent: [u8; 8],
) -> bool {
    let opened = gate::opened(claim)->Ok_0;
    let negotiate = gate::decoded_proof(claim, binding::NEGOTIATE_PROOF@)->Ok_0;
    let challenge = gate::decoded_proof(claim, binding::CHALLENGE_PROOF@)->Ok_0;
    if client.integrity && negotiate is Some && challenge is Some {
        &&& readings.challenge == Ok::<_, Seq<char>>(spent@)
        &&& session_key_of(gate, opened.read) is Ok
        &&& message::mic_of(opened.bytes) == Some(
            crypto::hmac_md5_code(
                session_key_of(gate, opened.read)->Ok_0,
                binding::mic_message(negotiate->Some_0, challenge->Some_0, opened.bytes),
            ),
        )
    } else {
        !gate.binding.integrity
    }
}

/// Whether everything holds that a response is held to once it has proven under `spent`.
pub open spec fn all_holds(
    gate: VerifierView,
    claim: PresentedView,
    readings: ReadingsView,
    now: i64,
    spent: [u8; 8],
) -> bool {
    match readings.client {
        Err(_) => false,
        Ok(None) => !gate.is_strict(),
        Ok(Some(client)) => {
            &&& gate::apart(now, client.made_at) <= gate.lifetime
            &&& gate.target is Some ==> client.target is Some && client.target->Some_0.is_expected
            &&& gate::decoded_proof(claim, binding::NEGOTIATE_PROOF@) is Ok
            &&& gate::decoded_proof(claim, binding::CHALLENGE_PROOF@) is Ok
            &&& gate.binding.channel is Some ==> client.channel == gate.binding.channel
            &&& integrity_holds(gate, claim, readings, client, spent)
        },
    }
}

/// A claim is proven exactly where its message reads, names the account claimed and proves, with
/// the hash the node holds, for an outstanding challenge, and where, under the oldest such
/// challenge, everything else holds: its age, its target, its channel and its MIC.
pub proof fn a_claim_is_proven_exactly_where_everything_holds(
    gate: VerifierView,
    claim: PresentedView,
    readings: ReadingsView,
    now: i64,
)
    ensures
        gate.verdict(claim, readings, now).refusal is None <==> {
            &&& gate::opened(claim) matches Ok(opened)
            &&& gate::claim_refusal(opened.read, claim, readings) is None
            &&& proves_outstanding(gate, opened.read)
            &&& gate.verdict(claim, readings, now).spent matches Some(at)
            &&& all_holds(gate, claim, readings, now, gate.challenges[at])
        },
{
    a_challenge_is_spent_exactly_where_the_response_proves(gate, claim, readings, now);
}

/// Where key exchange was negotiated, the session key that the client drew and sent under RC4 is
/// the one exported.
pub proof fn the_session_key_sent_is_the_one_exported(
    response_key: Seq<u8>,
    proof_str: Seq<u8>,
    flags: u32,
    drawn: Seq<u8>,
)
    requires
        flags & NEGOTIATE_KEY_EXCH != 0,
        drawn.len() == 16,
    ensures
        binding::exported_key(
            response_key,
            proof_str,
            flags,
            rc4::enciphered(crypto::hmac_md5_code(response_key, proof_str), drawn),
        ) == Ok::<_, Refusal<Seq<char>>>(drawn),
{
    rc4::enciphering_undoes_itself(crypto::hmac_md5_code(response_key, proof_str), drawn);
}

/// Where no piece of evidence is found to be another account's, each that is a principal name is
/// the message's.
proof fn lemma_no_other(readings: ReadingsView, count: nat)
    requires
        readings.first_other(count) is None,
    ensures
        forall|i: int|
            0 <= i < count && #[trigger] readings.evidence_at(i) is Some
                ==> readings.evidence_at(i)->Some_0.is_message,
    decreases count,
{
    if count > 0 {
        lemma_no_other(readings, (count - 1) as nat);
    }
}

/// What is proven names the account claimed: where the message's names form no principal name, or
/// the claim is a bare user, the claim is the message's user as written; and a claim that is a
/// principal name, and every piece of filed evidence that is one, is the message's.
pub proof fn what_is_proven_names_the_account_claimed(
    gate: VerifierView,
    claim: PresentedView,
    readings: ReadingsView,
    now: i64,
)
    requires
        gate.verdict(claim, readings, now).refusal is None,
    ensures
        readings.message is None || readings.value is None ==> gate::opened(claim)->Ok_0.read.user
            == claim.value,
        readings.message is Some && readings.value is Some ==> readings.value->Some_0.is_message,
        readings.message is Some ==> forall|i: int|
            0 <= i < presented::all_named(claim.evidence, gate::USER_EVIDENCE@).len()
                && #[trigger] readings.evidence_at(i) is Some
                ==> readings.evidence_at(i)->Some_0.is_message,
{
    if readings.message is Some {
        lemma_no_other(
            readings,
            presented::all_named(claim.evidence, gate::USER_EVIDENCE@).len(),
        );
    }
}

/// The challenges once more are recorded, one after another.
pub open spec fn recorded_all(challenges: Seq<[u8; 8]>, more: Seq<[u8; 8]>) -> Seq<[u8; 8]>
    decreases more.len(),
{
    if more.len() == 0 {
        challenges
    } else {
        gate::recorded(recorded_all(challenges, more.drop_last()), more.last())
    }
}

/// However many challenges are issued, those outstanding are the latest, in the order they were
/// issued, and no more than may be.
pub proof fn the_latest_challenges_are_outstanding(issued: Seq<[u8; 8]>)
    ensures
        recorded_all(seq![], issued) == if issued.len() <= OUTSTANDING {
            issued
        } else {
            issued.skip(issued.len() - OUTSTANDING)
        },
    decreases issued.len(),
{
    if issued.len() > 0 {
        the_latest_challenges_are_outstanding(issued.drop_last());
        if issued.len() <= OUTSTANDING {
            assert(recorded_all(seq![], issued) =~= issued);
        } else {
            assert(recorded_all(seq![], issued) =~= issued.skip(issued.len() - OUTSTANDING));
        }
    } else {
        assert(recorded_all(seq![], issued) =~= issued);
    }
}

/// A challenge just issued is outstanding.
pub proof fn a_challenge_issued_is_outstanding(challenges: Seq<[u8; 8]>, challenge: [u8; 8])
    ensures
        gate::recorded(challenges, challenge).last() == challenge,
        gate::recorded(challenges, challenge).contains(challenge),
{
    let after = gate::recorded(challenges, challenge);
    assert(after[after.len() - 1] == challenge);
}

/// The AUTHENTICATE message with a MIC written into it.
pub open spec fn with_mic(authenticate: Seq<u8>, mic: [u8; 16]) -> Seq<u8> {
    authenticate.take(MIC_OFFSET as int) + mic@ + authenticate.skip(MIC_OFFSET + MIC_LENGTH)
}

/// A MIC made over the three messages verifies once it is written into the third, and another
/// written there does not.
pub proof fn a_sealed_message_verifies(
    key: Seq<u8>,
    negotiate: Seq<u8>,
    challenge: Seq<u8>,
    authenticate: Seq<u8>,
    mic: [u8; 16],
)
    requires
        authenticate.len() >= MIC_OFFSET + MIC_LENGTH,
    ensures
        binding::mic_refusal(key, negotiate, challenge, with_mic(authenticate, mic)) is None
            <==> mic@ == crypto::hmac_md5_code(
            key,
            binding::mic_message(negotiate, challenge, authenticate),
        ),
{
    let sealed = with_mic(authenticate, mic);
    assert(message::mic_of(sealed)->Some_0 =~= mic@);
    assert(binding::without_mic(sealed) =~= binding::without_mic(authenticate));
}

/// A MIC covers every byte of the message but its own.
pub proof fn a_mic_covers_every_other_byte(x: Seq<u8>, y: Seq<u8>)
    requires
        x.len() == y.len(),
        x.len() >= MIC_OFFSET + MIC_LENGTH,
    ensures
        binding::without_mic(x) == binding::without_mic(y) <==> forall|i: int|
            0 <= i < x.len() && !(MIC_OFFSET <= i < MIC_OFFSET + MIC_LENGTH) ==> x[i] == y[i],
{
    let (a, b) = (binding::without_mic(x), binding::without_mic(y));
    assert(forall|i: int|
        0 <= i < x.len() && !(MIC_OFFSET <= i < MIC_OFFSET + MIC_LENGTH) ==> a[i] == x[i] && b[i]
            == y[i]);
    if forall|i: int|
        0 <= i < x.len() && !(MIC_OFFSET <= i < MIC_OFFSET + MIC_LENGTH) ==> x[i] == y[i] {
        assert(a =~= b);
    }
}

/// An account is compared without case: names with the same upper case are the same names.
pub proof fn accounts_are_compared_without_case(
    account: AccountView,
    user: Seq<char>,
    domain: Seq<char>,
    other_user: Seq<char>,
    other_domain: Seq<char>,
)
    requires
        text::uppercase(user) == text::uppercase(other_user),
        text::uppercase(domain) == text::uppercase(other_domain),
    ensures
        account.is_of(user, domain) == account.is_of(other_user, other_domain),
{
}

/// An account held for no domain is held for any, and one held for a domain for no other.
pub proof fn an_account_is_held_for_its_domain(
    account: AccountView,
    user: Seq<char>,
    domain: Seq<char>,
    other: Seq<char>,
)
    requires
        account.is_of(user, domain),
    ensures
        account.domain is None ==> account.is_of(user, other),
        account.domain is Some ==> (account.is_of(user, other) <==> text::uppercase(other)
            == text::uppercase(domain)),
{
}

/// The response key takes the user in upper case, and the domain as it is spelled.
pub proof fn the_response_key_takes_the_user_in_upper_case(
    hash: Seq<u8>,
    user: Seq<char>,
    other: Seq<char>,
    domain: Seq<char>,
)
    requires
        text::uppercase(user) == text::uppercase(other),
    ensures
        gate::response_key(hash, user, domain) == gate::response_key(hash, other, domain),
{
}

/// A hexadecimal digit, in lower case.
pub open spec fn hex_char(value: int) -> char {
    if value < 10 {
        (48 + value) as char
    } else {
        (87 + value) as char
    }
}

/// Sixteen bytes in hexadecimal digits.
pub open spec fn hex_text(hash: Seq<u8>) -> Seq<char> {
    Seq::new(
        2 * hash.len(),
        |i: int|
            if i % 2 == 0 {
                hex_char(hash[i / 2] as int / 16)
            } else {
                hex_char(hash[i / 2] as int % 16)
            },
    )
}

/// A hash printed in hexadecimal digits is the hash an account is made with.
pub proof fn a_printed_hash_is_read_back(hash: Seq<u8>)
    requires
        hash.len() == 16,
    ensures
        text::trimmed(hex_text(hash)) == hex_text(hash),
        account::is_nt_hash(hex_text(hash)),
        account::nt_hash_bytes(hex_text(hash)) == hash,
{
    let digits = hex_text(hash);
    assert forall|i: int| 0 <= i < 32 implies account::hex_digit(#[trigger] digits[i]) == Some(
        (if i % 2 == 0 {
            hash[i / 2] as int / 16
        } else {
            hash[i / 2] as int % 16
        }) as u8,
    ) by {}
    assert forall|i: int| 0 <= i < 16 implies #[trigger] account::nt_hash_bytes(digits)[i]
        == hash[i] by {
        assert(account::hex_digit(digits[2 * i]) == Some((hash[(2 * i) / 2] as int / 16) as u8));
        assert(account::hex_digit(digits[2 * i + 1]) == Some(
            (hash[(2 * i + 1) / 2] as int % 16) as u8,
        ));
    }
    assert(account::nt_hash_bytes(digits) =~= hash);
    assert(account::hex_digit(digits[0]) is Some && account::hex_digit(digits[31]) is Some);
}

/// What reads as a type 3 message is signed, of that type, and carries an `NTLMv2` response.
pub proof fn what_is_read_is_ntlmv2(message: Seq<u8>)
    requires
        message::parsed(message) is Ok,
    ensures
        message::is_signed(message),
        message::le32_at(message, 8) == Some(3u32),
        message::pointed_at(message, NT_RESPONSE_FIELDS as int) is Some,
        ({
            let read = message::parsed(message)->Ok_0;
            let response = message::pointed_at(message, NT_RESPONSE_FIELDS as int)->Some_0;
            &&& response == read.proof + read.blob
            &&& read.proof.len() == PROOF_LENGTH
            &&& message::is_client_challenge(read.blob)
        }),
{
    let read = message::parsed(message)->Ok_0;
    let response = message::pointed_at(message, NT_RESPONSE_FIELDS as int)->Some_0;
    assert(response =~= read.proof + read.blob);
}

/// The place of a field: its length, twice, and where its payload begins.
pub open spec fn place(length: nat, offset: nat) -> Seq<u8> {
    seq![
        (length % 0x100) as u8,
        (length / 0x100) as u8,
        (length % 0x100) as u8,
        (length / 0x100) as u8,
    ] + bytes::le32(offset as u32)
}

/// The payloads of a type 3 message, in the order of their fields.
pub struct Payloads {
    pub lm_response: Seq<u8>,
    pub nt_response: Seq<u8>,
    pub domain: Seq<u8>,
    pub user: Seq<u8>,
    pub workstation: Seq<u8>,
    pub session_key: Seq<u8>,
}

impl Payloads {
    /// Whether every payload's length can be written into its field.
    pub open spec fn fit(self) -> bool {
        &&& self.lm_response.len() <= 0xFFFF
        &&& self.nt_response.len() <= 0xFFFF
        &&& self.domain.len() <= 0xFFFF
        &&& self.user.len() <= 0xFFFF
        &&& self.workstation.len() <= 0xFFFF
        &&& self.session_key.len() <= 0xFFFF
    }
}

impl Payloads {
    /// Where the NT response begins: behind the LM response, which begins behind the header.
    pub open spec fn nt_offset(self) -> nat {
        64 + self.lm_response.len()
    }

    /// Where the domain begins.
    pub open spec fn domain_offset(self) -> nat {
        self.nt_offset() + self.nt_response.len()
    }

    /// Where the user begins.
    pub open spec fn user_offset(self) -> nat {
        self.domain_offset() + self.domain.len()
    }

    /// Where the workstation begins.
    pub open spec fn workstation_offset(self) -> nat {
        self.user_offset() + self.user.len()
    }

    /// Where the session key begins.
    pub open spec fn session_key_offset(self) -> nat {
        self.workstation_offset() + self.workstation.len()
    }

    /// The header that leads to the payloads.
    pub open spec fn header(self, flags: u32) -> Seq<u8> {
        message::signature() + bytes::le32(3) + place(self.lm_response.len(), 64) + place(
            self.nt_response.len(),
            self.nt_offset(),
        ) + place(self.domain.len(), self.domain_offset()) + place(
            self.user.len(),
            self.user_offset(),
        ) + place(self.workstation.len(), self.workstation_offset()) + place(
            self.session_key.len(),
            self.session_key_offset(),
        ) + bytes::le32(flags)
    }

    /// The payloads, one after another.
    pub open spec fn joined(self) -> Seq<u8> {
        self.lm_response + self.nt_response + self.domain + self.user + self.workstation
            + self.session_key
    }
}

/// A type 3 message as MS-NLMP 2.2.1.3 lays it out, its payloads one after another behind the
/// header.
#[verifier::opaque]
pub open spec fn type3(flags: u32, payloads: Payloads) -> Seq<u8> {
    payloads.header(flags) + payloads.joined()
}

proof fn lemma_le32_at(m: Seq<u8>, at: int, n: u32)
    requires
        0 <= at,
        at + 4 <= m.len(),
        m.subrange(at, at + 4) == bytes::le32(n),
    ensures
        message::le32_at(m, at) == Some(n),
{
    let s = m.subrange(at, at + 4);
    assert(s[0] == m[at] && s[1] == m[at + 1] && s[2] == m[at + 2] && s[3] == m[at + 3]);
    assert(n == n % 0x100 + 0x100 * (n / 0x100 % 0x100) + 0x1_0000 * (n / 0x1_0000 % 0x100)
        + 0x100_0000 * (n / 0x100_0000));
}

proof fn lemma_pointed_at(m: Seq<u8>, at: int, length: nat, offset: nat, payload: Seq<u8>)
    requires
        0 <= at,
        at + 8 <= m.len(),
        length <= 0xFFFF,
        offset + length <= m.len(),
        offset <= u32::MAX,
        m.subrange(at, at + 8) == place(length, offset),
        m.subrange(offset as int, (offset + length) as int) == payload,
    ensures
        message::pointed_at(m, at) == Some(payload),
{
    let s = m.subrange(at, at + 8);
    assert(s[0] == m[at] && s[1] == m[at + 1]);
    assert(m.subrange(at + 4, at + 8) =~= s.subrange(4, 8));
    assert(s.subrange(4, 8) =~= bytes::le32(offset as u32));
    lemma_le32_at(m, at + 4, offset as u32);
    assert(message::le16_at(m, at) == Some(length as u16));
}

/// The parts of a header stand where they are looked for.
proof fn lemma_header(flags: u32, payloads: Payloads)
    ensures
        payloads.header(flags).len() == 64,
        payloads.header(flags).take(8) == message::signature(),
        payloads.header(flags).subrange(8, 12) == bytes::le32(3),
        payloads.header(flags).subrange(20, 28) == place(
            payloads.nt_response.len(),
            payloads.nt_offset(),
        ),
        payloads.header(flags).subrange(28, 36) == place(
            payloads.domain.len(),
            payloads.domain_offset(),
        ),
        payloads.header(flags).subrange(36, 44) == place(
            payloads.user.len(),
            payloads.user_offset(),
        ),
        payloads.header(flags).subrange(52, 60) == place(
            payloads.session_key.len(),
            payloads.session_key_offset(),
        ),
        payloads.header(flags).subrange(60, 64) == bytes::le32(flags),
{
    let a = message::signature() + bytes::le32(3) + place(payloads.lm_response.len(), 64);
    let b = place(payloads.nt_response.len(), payloads.nt_offset());
    let c = place(payloads.domain.len(), payloads.domain_offset());
    let d = place(payloads.user.len(), payloads.user_offset());
    let e = place(payloads.workstation.len(), payloads.workstation_offset());
    let f = place(payloads.session_key.len(), payloads.session_key_offset());
    let g = bytes::le32(flags);
    assert(a.len() == 20 && a.take(8) == message::signature() && a.subrange(8, 12) == bytes::le32(
        3,
    ));
    lemma_parts(a, b, c, d, e, f, g);
}

/// Seven byte strings, each found again where it was put.
proof fn lemma_parts(
    a: Seq<u8>,
    b: Seq<u8>,
    c: Seq<u8>,
    d: Seq<u8>,
    e: Seq<u8>,
    f: Seq<u8>,
    g: Seq<u8>,
)
    requires
        a.len() == 20,
        b.len() == 8,
        c.len() == 8,
        d.len() == 8,
        e.len() == 8,
        f.len() == 8,
        g.len() == 4,
    ensures
        (a + b + c + d + e + f + g).len() == 64,
        (a + b + c + d + e + f + g).take(8) == a.take(8),
        (a + b + c + d + e + f + g).subrange(8, 12) == a.subrange(8, 12),
        (a + b + c + d + e + f + g).subrange(20, 28) == b,
        (a + b + c + d + e + f + g).subrange(28, 36) == c,
        (a + b + c + d + e + f + g).subrange(36, 44) == d,
        (a + b + c + d + e + f + g).subrange(52, 60) == f,
        (a + b + c + d + e + f + g).subrange(60, 64) == g,
{
    let m = a + b + c + d + e + f + g;
    assert(m.take(8) =~= a.take(8));
    assert(m.subrange(8, 12) =~= a.subrange(8, 12));
    assert(m.subrange(20, 28) =~= b);
    assert(m.subrange(28, 36) =~= c);
    assert(m.subrange(36, 44) =~= d);
    assert(m.subrange(52, 60) =~= f);
    assert(m.subrange(60, 64) =~= g);
}

/// Six payloads, those looked for found again where they were put.
proof fn lemma_payloads(payloads: Payloads)
    ensures
        payloads.joined().len() == payloads.session_key_offset() - 64 + payloads.session_key.len(),
        payloads.joined().subrange(
            payloads.nt_offset() - 64,
            payloads.nt_offset() - 64 + payloads.nt_response.len(),
        ) == payloads.nt_response,
        payloads.joined().subrange(
            payloads.domain_offset() - 64,
            payloads.domain_offset() - 64 + payloads.domain.len(),
        ) == payloads.domain,
        payloads.joined().subrange(
            payloads.user_offset() - 64,
            payloads.user_offset() - 64 + payloads.user.len(),
        ) == payloads.user,
        payloads.joined().subrange(
            payloads.session_key_offset() - 64,
            payloads.session_key_offset() - 64 + payloads.session_key.len(),
        ) == payloads.session_key,
{
    let m = payloads.joined();
    assert(m.subrange(
        payloads.nt_offset() - 64,
        payloads.nt_offset() - 64 + payloads.nt_response.len(),
    ) =~= payloads.nt_response);
    assert(m.subrange(
        payloads.domain_offset() - 64,
        payloads.domain_offset() - 64 + payloads.domain.len(),
    ) =~= payloads.domain);
    assert(m.subrange(
        payloads.user_offset() - 64,
        payloads.user_offset() - 64 + payloads.user.len(),
    ) =~= payloads.user);
    assert(m.subrange(
        payloads.session_key_offset() - 64,
        payloads.session_key_offset() - 64 + payloads.session_key.len(),
    ) =~= payloads.session_key);
}

/// A field of a message points at its payload, where the header and the payloads say so.
proof fn lemma_field(
    header: Seq<u8>,
    joined: Seq<u8>,
    at: int,
    length: nat,
    offset: nat,
    payload: Seq<u8>,
)
    requires
        header.len() == 64,
        0 <= at <= 56,
        length <= 0xFFFF,
        64 <= offset,
        offset - 64 + length <= joined.len(),
        offset <= u32::MAX,
        header.subrange(at, at + 8) == place(length, offset),
        joined.subrange(offset - 64, offset - 64 + length) == payload,
    ensures
        message::pointed_at(header + joined, at) == Some(payload),
{
    let m = header + joined;
    assert(m.subrange(at, at + 8) =~= header.subrange(at, at + 8));
    assert(m.subrange(offset as int, (offset + length) as int) =~= joined.subrange(
        offset - 64,
        offset - 64 + length,
    ));
    lemma_pointed_at(m, at, length, offset, payload);
}

/// A type 3 message laid out with these payloads is read into them.
proof fn lemma_type3(flags: u32, payloads: Payloads)
    requires
        payloads.fit(),
    ensures
        message::is_signed(type3(flags, payloads)),
        message::le32_at(type3(flags, payloads), 8) == Some(3u32),
        message::le32_at(type3(flags, payloads), FLAGS as int) == Some(flags),
        message::pointed_at(type3(flags, payloads), NT_RESPONSE_FIELDS as int) == Some(
            payloads.nt_response,
        ),
        message::pointed_at(type3(flags, payloads), DOMAIN_FIELDS as int) == Some(payloads.domain),
        message::pointed_at(type3(flags, payloads), USER_FIELDS as int) == Some(payloads.user),
        message::pointed_at(type3(flags, payloads), SESSION_KEY_FIELDS as int) == Some(
            payloads.session_key,
        ),
        type3(flags, payloads).len() >= 64,
{
    reveal(type3);
    lemma_header(flags, payloads);
    lemma_payloads(payloads);
    let header = payloads.header(flags);
    let joined = payloads.joined();
    let m = header + joined;
    assert(m.take(8) =~= header.take(8));
    assert(message::is_signed(m)) by {
        assert(forall|i: int| 0 <= i < 8 ==> m[i] == m.take(8)[i]);
    }
    assert(m.subrange(8, 12) =~= header.subrange(8, 12));
    lemma_le32_at(m, 8, 3);
    assert(m.subrange(60, 64) =~= header.subrange(60, 64));
    lemma_le32_at(m, 60, flags);
    lemma_field(
        header,
        joined,
        20,
        payloads.nt_response.len(),
        payloads.nt_offset(),
        payloads.nt_response,
    );
    lemma_field(
        header,
        joined,
        28,
        payloads.domain.len(),
        payloads.domain_offset(),
        payloads.domain,
    );
    lemma_field(header, joined, 36, payloads.user.len(), payloads.user_offset(), payloads.user);
    lemma_field(
        header,
        joined,
        52,
        payloads.session_key.len(),
        payloads.session_key_offset(),
        payloads.session_key,
    );
}

/// A Unicode type 3 message is read into the names, the proof, the blob, the flags and the session
/// key it was laid out with.
pub proof fn a_type_3_is_read_back(
    flags: u32,
    payloads: Payloads,
    user: Seq<char>,
    domain: Seq<char>,
    proof_str: Seq<u8>,
    blob: Seq<u8>,
)
    requires
        payloads.fit(),
        flags & 1 != 0,
        payloads.user == text::utf16_le(user),
        payloads.domain == text::utf16_le(domain),
        payloads.nt_response == proof_str + blob,
        proof_str.len() == 16,
        blob.len() >= 28,
        blob[0] == 1,
        blob[1] == 1,
    ensures
        message::parsed(type3(flags, payloads)) == Ok::<_, Refusal<Seq<char>>>(
            AuthenticateView {
                user,
                domain,
                proof: proof_str,
                blob,
                flags,
                session_key: payloads.session_key,
            },
        ),
{
    lemma_type3(flags, payloads);
    text::byte_units_undo_unit_bytes(text::utf16(user));
    text::utf16_text_undoes_utf16(user);
    text::byte_units_undo_unit_bytes(text::utf16(domain));
    text::utf16_text_undoes_utf16(domain);
    assert(payloads.nt_response.take(PROOF_LENGTH as int) =~= proof_str);
    assert(payloads.nt_response.skip(PROOF_LENGTH as int) =~= blob);
}

/// A type 3 message that is not Unicode is read into the same, each byte of its names one
/// character.
pub proof fn a_type_3_without_unicode_is_read_back(
    flags: u32,
    payloads: Payloads,
    proof_str: Seq<u8>,
    blob: Seq<u8>,
)
    requires
        payloads.fit(),
        flags & 1 == 0,
        payloads.nt_response == proof_str + blob,
        proof_str.len() == 16,
        blob.len() >= 28,
        blob[0] == 1,
        blob[1] == 1,
    ensures
        message::parsed(type3(flags, payloads)) == Ok::<_, Refusal<Seq<char>>>(
            AuthenticateView {
                user: text::latin1_text(payloads.user),
                domain: text::latin1_text(payloads.domain),
                proof: proof_str,
                blob,
                flags,
                session_key: payloads.session_key,
            },
        ),
{
    lemma_type3(flags, payloads);
    assert(payloads.nt_response.take(PROOF_LENGTH as int) =~= proof_str);
    assert(payloads.nt_response.skip(PROOF_LENGTH as int) =~= blob);
}

/// Who makes a response as MS-NLMP 3.3.2 says, with the hash the node holds and for a challenge
/// outstanding, and sends it in a message laid out as 2.2.1.3 says, has it proven under a
/// challenge, which is spent; and it is found proven exactly where everything else holds that the
/// verifier holds it to.
pub proof fn a_client_that_knows_the_hash_is_proven(
    gate: VerifierView,
    claim: PresentedView,
    readings: ReadingsView,
    now: i64,
    flags: u32,
    payloads: Payloads,
    message: AuthenticateView,
    account: AccountView,
    at: int,
)
    requires
        claim.mechanism == "ntlm"@,
        claim.proof_under("ntlm.authenticate"@) == Some(
            base64_text::encoded(type3(flags, payloads)),
        ),
        payloads.fit(),
        flags & 1 != 0,
        payloads.user == text::utf16_le(message.user),
        payloads.domain == text::utf16_le(message.domain),
        payloads.nt_response == message.proof + message.blob,
        message.proof.len() == 16,
        message.blob.len() >= 28,
        message.blob[0] == 1,
        message.blob[1] == 1,
        message.flags == flags,
        message.session_key == payloads.session_key,
        gate::claim_refusal(message, claim, readings) is None,
        gate::account_of(gate.accounts, message.user, message.domain) == Some(account),
        0 <= at < gate.challenges.len(),
        message.proof == crypto::hmac_md5_code(
            crypto::hmac_md5_code(
                account.hash,
                text::utf16_le(text::uppercase(message.user) + message.domain),
            ),
            gate.challenges[at]@ + message.blob,
        ),
    ensures
        gate.verdict(claim, readings, now).spent is Some,
        gate.verdict(claim, readings, now).refusal is None <==> all_holds(
            gate,
            claim,
            readings,
            now,
            gate.challenges[gate.verdict(claim, readings, now).spent->Some_0],
        ),
{
    let sent = type3(flags, payloads);
    base64_text::encoding_holds_no_white_space(sent);
    base64_text::decoding_undoes_encoding(sent);
    a_type_3_is_read_back(
        flags,
        payloads,
        message.user,
        message.domain,
        message.proof,
        message.blob,
    );
    assert(gate::opened(claim) == Ok::<_, Refusal<Seq<char>>>(
        OpenedView { bytes: sent, read: message },
    ));
    let key = gate::response_key(account.hash, message.user, message.domain);
    verdicts::the_response_key_covers_the_whole_user_and_domain(
        account.hash,
        message.user,
        message.domain,
    );
    assert(gate::proves(key, gate.challenges[at], message));
    assert(proves_outstanding(gate, message));
    a_challenge_is_spent_exactly_where_the_response_proves(gate, claim, readings, now);
    a_claim_is_proven_exactly_where_everything_holds(gate, claim, readings, now);
}

} // verus!
