//! What holds of the verifier's decisions, each said of what is presented, of what the node holds
//! and of the clock.

use crate::account::AccountView;
use crate::binding::ExchangeView;
use crate::crypto;
use crate::gate;
use crate::gate::{OpenedView, VerifierView};
use crate::laws;
use crate::laws::{claims, sealing, texts, Event};
use crate::message::AuthenticateView;
use crate::presented::{ClientChallengeView, PresentedView, ReadingsView};
use crate::rc4;
use crate::refusal::Refusal;
use crate::text;
use vstd::prelude::*;

verus! {

/// The response key is HMAC-MD5 under the hash over the user in upper case and the domain as it is
/// spelled, both whole, in UTF-16.
pub proof fn the_response_key_covers_the_whole_user_and_domain(
    hash: Seq<u8>,
    user: Seq<char>,
    domain: Seq<char>,
)
    ensures
        gate::response_key(hash, user, domain) == crypto::hmac_md5_code(
            hash,
            text::utf16_le(text::uppercase(user) + domain),
        ),
{
    texts::utf16_is_written_one_text_after_another(text::uppercase(user), domain);
}

/// Of one user, two domains enter the response key alike only where they are spelled alike.
pub proof fn a_domain_enters_the_key_as_it_is_spelled(
    user: Seq<char>,
    domain: Seq<char>,
    other: Seq<char>,
)
    ensures
        text::utf16_le(text::uppercase(user) + domain) == text::utf16_le(
            text::uppercase(user) + other,
        ) <==> domain == other,
{
    let (x, y) = (text::uppercase(user) + domain, text::uppercase(user) + other);
    if text::utf16_le(x) == text::utf16_le(y) {
        text::byte_units_undo_unit_bytes(text::utf16(x));
        text::byte_units_undo_unit_bytes(text::utf16(y));
        text::utf16_is_injective(x, y);
        assert(domain =~= x.skip(text::uppercase(user).len() as int));
        assert(other =~= y.skip(text::uppercase(user).len() as int));
    }
}

/// A message proves under a challenge exactly where its proof is HMAC-MD5, under the response key,
/// over the challenge and the whole blob.
pub proof fn a_proof_is_the_code_of_the_challenge_and_the_blob(
    key: Seq<u8>,
    challenge: [u8; 8],
    read: AuthenticateView,
)
    ensures
        gate::proves(key, challenge, read) <==> read.proof == crypto::hmac_md5_code(
            key,
            challenge@ + read.blob,
        ),
{
}

/// A challenge recorded stands last; all that were outstanding stay before it in order, but for the
/// oldest where there were one thousand and twenty-four.
pub proof fn a_challenge_recorded_stands_last(challenges: Seq<[u8; 8]>, challenge: [u8; 8])
    ensures
        challenges.len() < 1024 ==> gate::recorded(challenges, challenge) == challenges + seq![
            challenge,
        ],
        challenges.len() >= 1024 ==> gate::recorded(challenges, challenge) == challenges.skip(1)
            + seq![challenge],
{
    assert(challenges.push(challenge) =~= challenges + seq![challenge]);
    if challenges.len() >= 1024 {
        assert(gate::recorded(challenges, challenge) =~= challenges.skip(1) + seq![challenge]);
    }
}

/// However many challenges are issued and whatever claims are verified, no more than one thousand
/// and twenty-four are outstanding, where there were no more to begin with.
pub proof fn no_more_challenges_are_outstanding_than_may_be(gate: VerifierView, events: Seq<Event>)
    requires
        gate.challenges.len() <= 1024,
    ensures
        laws::after_all(gate, events).challenges.len() <= 1024,
        laws::after_all(gate, events).is_bounded(),
    decreases events.len(),
{
    if events.len() > 0 {
        no_more_challenges_are_outstanding_than_may_be(gate, events.drop_last());
        let before = laws::after_all(gate, events.drop_last());
        if let Event::Verified { claim, readings, now } = events.last() {
            laws::a_challenge_is_spent_exactly_where_the_response_proves(
                before,
                claim,
                readings,
                now,
            );
        }
    }
}

/// A challenge spent is gone, every other stays, in order, and nothing else of the verifier is
/// touched; where none is spent nothing is touched at all.
pub proof fn a_challenge_spent_is_gone_and_every_other_stays(gate: VerifierView, at: int)
    requires
        0 <= at < gate.challenges.len(),
    ensures
        gate.spending(Some(at)).challenges == gate.challenges.take(at) + gate.challenges.skip(
            at + 1,
        ),
        gate.spending(Some(at)).accounts == gate.accounts,
        gate.spending(Some(at)).target == gate.target,
        gate.spending(Some(at)).lifetime == gate.lifetime,
        gate.spending(Some(at)).binding == gate.binding,
        gate.spending(None) == gate,
{
    assert(gate.spending(Some(at)).challenges =~= gate.challenges.take(at) + gate.challenges.skip(
        at + 1,
    ));
}

/// When a response was made, as the clock counts: no later than the clock can say.
pub open spec fn made(client: ClientChallengeView) -> int {
    if client.made_at <= 0x7FFF_FFFF_FFFF_FFFF {
        client.made_at as int
    } else {
        0x7FFF_FFFF_FFFF_FFFF
    }
}

/// The age of a response holds exactly where it was made no longer before now, and no longer after
/// it, than the lifetime; one further off is refused, saying by how much.
pub proof fn an_age_holds_exactly_within_the_lifetime_of_now(
    gate: VerifierView,
    client: ClientChallengeView,
    now: i64,
)
    ensures
        gate.age_refusal(client, now) is None <==> now - gate.lifetime <= made(client) <= now
            + gate.lifetime,
        made(client) < now - gate.lifetime ==> gate.age_refusal(client, now) == Some(
            Refusal::<Seq<char>>::TooFarOff {
                apart: (now - made(client)) as u64,
                lifetime: gate.lifetime,
            },
        ),
        made(client) > now + gate.lifetime ==> gate.age_refusal(client, now) == Some(
            Refusal::<Seq<char>>::TooFarOff {
                apart: (made(client) - now) as u64,
                lifetime: gate.lifetime,
            },
        ),
{
}

/// Whether a claim's message is open, names the account claimed, and answers the challenge at `at`
/// and none before it: its proof is HMAC-MD5, under HMAC-MD5 of the account's hash over the user in
/// upper case and the domain, over that challenge and the blob.
pub open spec fn answers(
    gate: VerifierView,
    claim: PresentedView,
    readings: ReadingsView,
    opened: OpenedView,
    account: AccountView,
    at: int,
) -> bool {
    let read = opened.read;
    let key = crypto::hmac_md5_code(
        account.hash,
        text::utf16_le(text::uppercase(read.user) + read.domain),
    );
    &&& gate::opened(claim) == Ok::<_, Refusal<Seq<char>>>(opened)
    &&& gate::claim_refusal(read, claim, readings) is None
    &&& gate::account_of(gate.accounts, read.user, read.domain) == Some(account)
    &&& 0 <= at < gate.challenges.len()
    &&& read.proof == crypto::hmac_md5_code(key, gate.challenges[at]@ + read.blob)
    &&& forall|i: int|
        0 <= i < at ==> read.proof != crypto::hmac_md5_code(
            key,
            (#[trigger] gate.challenges[i])@ + read.blob,
        )
}

/// A response that answers the challenge at `at` spends it.
proof fn lemma_answered(
    gate: VerifierView,
    claim: PresentedView,
    readings: ReadingsView,
    now: i64,
    opened: OpenedView,
    account: AccountView,
    at: int,
)
    requires
        answers(gate, claim, readings, opened, account, at),
    ensures
        gate.verdict(claim, readings, now).spent == Some(at),
        gate.verdict(claim, readings, now).refusal == gate.proven_refusal(
            claim,
            readings,
            now,
            opened,
            gate::response_key(account.hash, opened.read.user, opened.read.domain),
            gate.challenges[at]@,
        ),
{
    let read = opened.read;
    let key = gate::response_key(account.hash, read.user, read.domain);
    the_response_key_covers_the_whole_user_and_domain(account.hash, read.user, read.domain);
    assert forall|i: int| 0 <= i < at implies !gate::proves(
        key,
        #[trigger] gate.challenges[i],
        read,
    ) by {}
    assert(gate::is_first_proven(gate.challenges, key, read, at));
    let first = gate::first_proven(gate.challenges, key, read)->Some_0;
    assert(gate::is_first_proven(gate.challenges, key, read, first));
    assert(first == at);
}

/// A response that answers an outstanding challenge spends the oldest it answers, and leaves every
/// other outstanding, whatever becomes of it.
pub proof fn the_oldest_challenge_answered_is_spent(
    gate: VerifierView,
    claim: PresentedView,
    readings: ReadingsView,
    now: i64,
    opened: OpenedView,
    account: AccountView,
    at: int,
)
    requires
        answers(gate, claim, readings, opened, account, at),
    ensures
        gate.verdict(claim, readings, now).spent == Some(at),
        gate.spending(gate.verdict(claim, readings, now).spent).challenges == gate.challenges.take(
            at,
        ) + gate.challenges.skip(at + 1),
{
    lemma_answered(gate, claim, readings, now, opened, account, at);
    a_challenge_spent_is_gone_and_every_other_stays(gate, at);
}

/// A claim that is not opened, names another account, is of a user the node holds no hash for,
/// meets no outstanding challenge or answers none of them is refused for the first of these that
/// holds, and spends nothing.
pub proof fn what_answers_nothing_is_refused_for_what_it_lacks(
    gate: VerifierView,
    claim: PresentedView,
    readings: ReadingsView,
    now: i64,
)
    ensures
        gate::opened(claim) matches Err(why) ==> gate.verdict(claim, readings, now) == (
        gate::Verdict { refusal: Some(why), spent: None }),
        gate::opened(claim) matches Ok(opened) ==> (gate::claim_refusal(
            opened.read,
            claim,
            readings,
        ) matches Some(why) ==> gate.verdict(claim, readings, now) == (gate::Verdict {
            refusal: Some(why),
            spent: None,
        })),
        (gate::opened(claim) matches Ok(opened) && gate::claim_refusal(
            opened.read,
            claim,
            readings,
        ) is None) ==> {
            let read = gate::opened(claim)->Ok_0.read;
            let held = gate::account_of(gate.accounts, read.user, read.domain);
            let key = crypto::hmac_md5_code(
                held->Some_0.hash,
                text::utf16_le(text::uppercase(read.user) + read.domain),
            );
            let refused = |why: Refusal<Seq<char>>|
                gate::Verdict { refusal: Some(why), spent: None };
            &&& held is None ==> gate.verdict(claim, readings, now) == refused(
                Refusal::NoAccount { user: read.user, domain: read.domain },
            )
            &&& held is Some && gate.challenges.len() == 0 ==> gate.verdict(claim, readings, now)
                == refused(Refusal::NoChallenge)
            &&& held is Some && gate.challenges.len() > 0 && (forall|i: int|
                0 <= i < gate.challenges.len() ==> read.proof != crypto::hmac_md5_code(
                    key,
                    (#[trigger] gate.challenges[i])@ + read.blob,
                )) ==> gate.verdict(claim, readings, now) == refused(Refusal::NotProven)
        },
{
    if let Ok(opened) = gate::opened(claim) {
        let read = opened.read;
        if let Some(account) = gate::account_of(gate.accounts, read.user, read.domain) {
            the_response_key_covers_the_whole_user_and_domain(
                account.hash,
                read.user,
                read.domain,
            );
            let key = gate::response_key(account.hash, read.user, read.domain);
            if forall|i: int|
                0 <= i < gate.challenges.len() ==> read.proof != crypto::hmac_md5_code(
                    key,
                    (#[trigger] gate.challenges[i])@ + read.blob,
                ) {
                assert forall|at: int| !gate::is_first_proven(
                    gate.challenges,
                    key,
                    read,
                    at,
                ) by {
                    if 0 <= at < gate.challenges.len() {
                        assert(!gate::proves(key, gate.challenges[at], read));
                    }
                }
            }
        }
    }
}

/// A response that answers a challenge and whose blob is not read is refused in its reader's words;
/// one that holds no client challenge is refused for naming no target where one is expected, else
/// for being bound to no channel where one is held to, else for carrying no MIC where one is
/// required, and is proven where none of them is.
pub proof fn what_says_nothing_is_proven_only_where_nothing_is_asked(
    gate: VerifierView,
    claim: PresentedView,
    readings: ReadingsView,
    now: i64,
    opened: OpenedView,
    account: AccountView,
    at: int,
)
    requires
        answers(gate, claim, readings, opened, account, at),
    ensures
        readings.client matches Err(why) ==> gate.verdict(claim, readings, now).refusal == Some(
            Refusal::Unreadable { why },
        ),
        readings.client matches Ok(None) ==> gate.verdict(claim, readings, now).refusal == (
        if gate.target is Some {
            Some(Refusal::NoTarget { expected: gate.target->Some_0 })
        } else if gate.binding.channel is Some {
            Some(Refusal::NoChannel)
        } else if gate.binding.integrity {
            Some(Refusal::NoMic)
        } else {
            None
        }),
{
    lemma_answered(gate, claim, readings, now, opened, account, at);
}

/// A response that answers a challenge and was made further from now than the lifetime, before it
/// or after it, is refused, whatever else it says; a target that is expected and not named, named
/// from a source the client does not trust, or another, is refused next.
pub proof fn a_response_is_held_to_its_time_and_then_to_its_target(
    gate: VerifierView,
    claim: PresentedView,
    readings: ReadingsView,
    now: i64,
    opened: OpenedView,
    account: AccountView,
    at: int,
    client: ClientChallengeView,
)
    requires
        answers(gate, claim, readings, opened, account, at),
        readings.client == Ok::<_, Seq<char>>(Some(client)),
    ensures
        made(client) < now - gate.lifetime ==> gate.verdict(claim, readings, now).refusal == Some(
            Refusal::<Seq<char>>::TooFarOff {
                apart: (now - made(client)) as u64,
                lifetime: gate.lifetime,
            },
        ),
        made(client) > now + gate.lifetime ==> gate.verdict(claim, readings, now).refusal == Some(
            Refusal::<Seq<char>>::TooFarOff {
                apart: (made(client) - now) as u64,
                lifetime: gate.lifetime,
            },
        ),
        now - gate.lifetime <= made(client) <= now + gate.lifetime && (gate.target matches Some(
            expected,
        ) && !(client.target matches Some(named) && named.is_expected)) ==> gate.verdict(
            claim,
            readings,
            now,
        ).refusal == Some(
            if client.target is Some {
                Refusal::AnotherTarget {
                    named: client.target->Some_0.text,
                    expected: gate.target->Some_0,
                }
            } else if client.untrusted {
                Refusal::TargetUntrusted { expected: gate.target->Some_0 }
            } else {
                Refusal::NoTarget { expected: gate.target->Some_0 }
            },
        ),
{
    lemma_answered(gate, claim, readings, now, opened, account, at);
    an_age_holds_exactly_within_the_lifetime_of_now(gate, client, now);
}

/// A response that answers a challenge, in time and for this node, is refused where a message
/// presented beside it is not base64, the first before the second, and is else held to its channel
/// and its MIC over the messages presented, with the key and the challenge it answered.
pub proof fn a_response_is_held_to_the_exchange_it_belongs_to(
    gate: VerifierView,
    claim: PresentedView,
    readings: ReadingsView,
    now: i64,
    opened: OpenedView,
    account: AccountView,
    at: int,
    client: ClientChallengeView,
)
    requires
        answers(gate, claim, readings, opened, account, at),
        readings.client == Ok::<_, Seq<char>>(Some(client)),
        now - gate.lifetime <= made(client) <= now + gate.lifetime,
        gate.target is Some ==> (client.target matches Some(named) && named.is_expected),
    ensures
        gate::decoded_proof(claim, "ntlm.negotiate"@) is Err ==> gate.verdict(
            claim,
            readings,
            now,
        ).refusal == Some(Refusal::ProofNotBase64 { name: "ntlm.negotiate"@ }),
        gate::decoded_proof(claim, "ntlm.negotiate"@) is Ok && gate::decoded_proof(
            claim,
            "ntlm.challenge"@,
        ) is Err ==> gate.verdict(claim, readings, now).refusal == Some(
            Refusal::ProofNotBase64 { name: "ntlm.challenge"@ },
        ),
        gate::decoded_proof(claim, "ntlm.negotiate"@) is Ok && gate::decoded_proof(
            claim,
            "ntlm.challenge"@,
        ) is Ok ==> gate.verdict(claim, readings, now).refusal == gate.binding.refusal(
            client,
            ExchangeView {
                negotiate: gate::decoded_proof(claim, "ntlm.negotiate"@)->Ok_0,
                challenge: gate::decoded_proof(claim, "ntlm.challenge"@)->Ok_0,
                announced: readings.challenge,
                authenticate: opened.bytes,
                read: opened.read,
                response_key: crypto::hmac_md5_code(
                    account.hash,
                    text::utf16_le(text::uppercase(opened.read.user) + opened.read.domain),
                ),
                server_challenge: gate.challenges[at]@,
            },
        ),
{
    lemma_answered(gate, claim, readings, now, opened, account, at);
    an_age_holds_exactly_within_the_lifetime_of_now(gate, client, now);
    the_response_key_covers_the_whole_user_and_domain(
        account.hash,
        opened.read.user,
        opened.read.domain,
    );
    claims::a_proof_is_read_as_the_bytes_whose_base64_it_is(claim, "ntlm.negotiate"@, seq![]);
    claims::a_proof_is_read_as_the_bytes_whose_base64_it_is(claim, "ntlm.challenge"@, seq![]);
}

/// A response that answers a challenge and says what it was made for is proven exactly where it was
/// made within the lifetime of now, names the target expected, is bound to the channel held to, and
/// carries, where the client says so and the two messages before it are presented, the MIC of all
/// three whole under the session key, for the challenge it answered; or carries none where none is
/// required.
pub proof fn a_response_is_proven_exactly_where_all_it_is_held_to_holds(
    gate: VerifierView,
    claim: PresentedView,
    readings: ReadingsView,
    now: i64,
    opened: OpenedView,
    account: AccountView,
    at: int,
    client: ClientChallengeView,
    key: Seq<u8>,
    covered: Seq<u8>,
)
    requires
        answers(gate, claim, readings, opened, account, at),
        readings.client == Ok::<_, Seq<char>>(Some(client)),
        ({
            let response_key = crypto::hmac_md5_code(
                account.hash,
                text::utf16_le(text::uppercase(opened.read.user) + opened.read.domain),
            );
            let base = crypto::hmac_md5_code(response_key, opened.read.proof);
            &&& opened.read.flags & 0x4000_0000 == 0 ==> key == base
            &&& opened.read.flags & 0x4000_0000 != 0 ==> key == rc4::enciphered(
                base,
                opened.read.session_key,
            )
        }),
        (gate::decoded_proof(claim, "ntlm.negotiate"@) matches Ok(Some(negotiate))
            && gate::decoded_proof(claim, "ntlm.challenge"@) matches Ok(Some(challenge))
            && opened.bytes.len() >= 88) ==> sealing::covers(
            covered,
            gate::decoded_proof(claim, "ntlm.negotiate"@)->Ok_0->Some_0,
            gate::decoded_proof(claim, "ntlm.challenge"@)->Ok_0->Some_0,
            opened.bytes,
        ),
    ensures
        gate.verdict(claim, readings, now).refusal is None <==> {
            let negotiate = gate::decoded_proof(claim, "ntlm.negotiate"@);
            let challenge = gate::decoded_proof(claim, "ntlm.challenge"@);
            &&& now - gate.lifetime <= made(client) <= now + gate.lifetime
            &&& gate.target is Some ==> (client.target matches Some(named) && named.is_expected)
            &&& negotiate is Ok
            &&& challenge is Ok
            &&& gate.binding.channel is Some ==> client.channel == gate.binding.channel
            &&& if client.integrity && negotiate->Ok_0 is Some && challenge->Ok_0 is Some {
                &&& readings.challenge == Ok::<_, Seq<char>>(gate.challenges[at]@)
                &&& opened.read.flags & 0x4000_0000 != 0 ==> opened.read.session_key.len() == 16
                &&& opened.bytes.len() >= 88
                &&& opened.bytes.subrange(72, 88) == crypto::hmac_md5_code(key, covered)
            } else {
                !gate.binding.integrity
            }
        },
{
    let refusal = gate.verdict(claim, readings, now).refusal;
    a_response_is_held_to_its_time_and_then_to_its_target(
        gate,
        claim,
        readings,
        now,
        opened,
        account,
        at,
        client,
    );
    if now - gate.lifetime <= made(client) <= now + gate.lifetime && (gate.target is Some ==> (
    client.target matches Some(named) && named.is_expected)) {
        a_response_is_held_to_the_exchange_it_belongs_to(
            gate,
            claim,
            readings,
            now,
            opened,
            account,
            at,
            client,
        );
        if gate::decoded_proof(claim, "ntlm.negotiate"@) is Ok && gate::decoded_proof(
            claim,
            "ntlm.challenge"@,
        ) is Ok {
            let exchange = ExchangeView {
                negotiate: gate::decoded_proof(claim, "ntlm.negotiate"@)->Ok_0,
                challenge: gate::decoded_proof(claim, "ntlm.challenge"@)->Ok_0,
                announced: readings.challenge,
                authenticate: opened.bytes,
                read: opened.read,
                response_key: crypto::hmac_md5_code(
                    account.hash,
                    text::utf16_le(text::uppercase(opened.read.user) + opened.read.domain),
                ),
                server_challenge: gate.challenges[at]@,
            };
            assert(refusal == gate.binding.refusal(client, exchange));
            if gate.binding.channel is Some && client.channel != gate.binding.channel {
                sealing::a_response_is_held_to_its_channel_first(gate.binding, client, exchange);
            } else if client.integrity && exchange.negotiate is Some && exchange.challenge is Some {
                sealing::a_mic_that_is_there_must_hold(
                    gate.binding,
                    client,
                    exchange,
                    key,
                    covered,
                );
            } else {
                sealing::a_mic_that_is_not_there_is_missed_exactly_where_one_is_required(
                    gate.binding,
                    client,
                    exchange,
                );
            }
        }
    }
}

/// A response that has answered a challenge and answers no other then outstanding is refused when
/// it is presented again, at once or after whatever is issued and verified meanwhile, as long as
/// no challenge that it answers is issued; and it spends nothing.
pub proof fn a_message_answers_once(
    gate: VerifierView,
    claim: PresentedView,
    readings: ReadingsView,
    now: i64,
    opened: OpenedView,
    account: AccountView,
    at: int,
    since: Seq<Event>,
    again: PresentedView,
    again_readings: ReadingsView,
    later: i64,
)
    requires
        answers(gate, claim, readings, opened, account, at),
        gate::opened(again) == gate::opened(claim),
        ({
            let read = opened.read;
            let key = crypto::hmac_md5_code(
                account.hash,
                text::utf16_le(text::uppercase(read.user) + read.domain),
            );
            &&& forall|i: int|
                0 <= i < gate.challenges.len() && i != at ==> read.proof != crypto::hmac_md5_code(
                    key,
                    (#[trigger] gate.challenges[i])@ + read.blob,
                )
            &&& forall|i: int|
                0 <= i < since.len() ==> (#[trigger] since[i] matches Event::Issued { challenge }
                    ==> read.proof != crypto::hmac_md5_code(key, challenge@ + read.blob))
        }),
    ensures
        ({
            let left = gate.spending(gate.verdict(claim, readings, now).spent);
            &&& left.verdict(again, again_readings, later).refusal is Some
            &&& left.verdict(again, again_readings, later).spent is None
            &&& laws::after_all(left, since).verdict(again, again_readings, later).refusal is Some
            &&& laws::after_all(left, since).verdict(again, again_readings, later).spent is None
        }),
{
    let read = opened.read;
    let key = gate::response_key(account.hash, read.user, read.domain);
    the_response_key_covers_the_whole_user_and_domain(account.hash, read.user, read.domain);
    lemma_answered(gate, claim, readings, now, opened, account, at);
    a_challenge_spent_is_gone_and_every_other_stays(gate, at);
    let left = gate.spending(Some(at));
    assert forall|i: int| 0 <= i < left.challenges.len() implies !gate::proves(
        key,
        #[trigger] left.challenges[i],
        read,
    ) by {
        let before = if i < at {
            i
        } else {
            i + 1
        };
        assert(left.challenges[i] == gate.challenges[before]);
    }
    assert forall|i: int| 0 <= i < since.len() && (#[trigger] since[i]) is Issued implies
        !gate::proves(key, since[i]->challenge, read) by {}
    assert(left == laws::after(gate, Event::Verified { claim, readings, now }));
    laws::a_replayed_response_is_refused(
        gate,
        claim,
        readings,
        now,
        since,
        again,
        again_readings,
        later,
    );
    laws::a_replayed_response_is_refused(
        gate,
        claim,
        readings,
        now,
        seq![],
        again,
        again_readings,
        later,
    );
    assert(laws::after_all(left, seq![]) == left);
}

/// Among distinct challenges, one that is spent is outstanding no more, and each of the others is.
pub proof fn of_distinct_challenges_only_the_one_answered_is_gone(
    gate: VerifierView,
    at: int,
    other: int,
)
    requires
        gate.challenges.no_duplicates(),
        0 <= at < gate.challenges.len(),
        0 <= other < gate.challenges.len(),
    ensures
        gate.spending(Some(at)).challenges.contains(gate.challenges[other]) <==> other != at,
        gate.spending(Some(at)).challenges.no_duplicates(),
{
    a_challenge_spent_is_gone_and_every_other_stays(gate, at);
    let left = gate.spending(Some(at)).challenges;
    assert forall|i: int| 0 <= i < left.len() implies left[i] == gate.challenges[if i < at {
        i
    } else {
        i + 1
    }] by {}
    if other < at {
        assert(left[other] == gate.challenges[other]);
    } else if other > at {
        assert(left[other - 1] == gate.challenges[other]);
    }
}

} // verus!
