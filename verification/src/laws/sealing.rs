//! What holds of what binds a response to its exchange and its channel: RC4, the session key, the
//! MIC and the channel's hash.

use crate::binding;
use crate::binding::{Binding, BindingView, Exchange, ExchangeView};
use crate::bytes;
use crate::crypto;
use crate::laws::messages;
use crate::presented::ClientChallengeView;
use crate::rc4;
use crate::refusal::Refusal;
use vstd::prelude::*;

verus! {

/// Whether `after` is the two hundred and fifty-six bytes of `before` with two of them exchanged.
pub open spec fn exchanged(before: Seq<u8>, after: Seq<u8>, i: int, j: int) -> bool {
    &&& before.len() == 256
    &&& after.len() == 256
    &&& 0 <= i < 256
    &&& 0 <= j < 256
    &&& after[i] == before[j]
    &&& after[j] == before[i]
    &&& forall|k: int| 0 <= k < 256 && k != i && k != j ==> #[trigger] after[k] == before[k]
}

/// Whether `states` and `swaps` are a run of RC4's key schedule: from the bytes in order, round by
/// round, each byte is exchanged with the one found by adding it and the key's byte, and the key is
/// gone through again where it ends.
pub open spec fn is_schedule(key: Seq<u8>, states: Seq<Seq<u8>>, swaps: Seq<int>) -> bool {
    &&& states.len() == 257
    &&& swaps.len() == 257
    &&& states[0].len() == 256
    &&& forall|i: int| 0 <= i < 256 ==> #[trigger] states[0][i] == i
    &&& swaps[0] == 0
    &&& forall|r: int|
        0 <= r < 256 ==> {
            &&& (#[trigger] swaps[r + 1]) == (swaps[r] + states[r][r] + key[r % (key.len() as int)])
                % 256
            &&& exchanged(states[r], states[r + 1], r, swaps[r + 1])
        }
}

/// Whether `states` and `seconds` are a run of RC4's stream from a schedule's last state: for the
/// `n`th byte, counted from one, the byte at `n` is exchanged with the one found by adding it.
pub open spec fn is_stream(from: Seq<u8>, states: Seq<Seq<u8>>, seconds: Seq<int>) -> bool {
    &&& states.len() == seconds.len()
    &&& states.len() > 0
    &&& states[0] == from
    &&& seconds[0] == 0
    &&& forall|n: int|
        0 <= n < states.len() - 1 ==> {
            &&& (#[trigger] seconds[n + 1]) == (seconds[n] + states[n][(n + 1) % 256]) % 256
            &&& exchanged(states[n], states[n + 1], (n + 1) % 256, seconds[n + 1])
        }
}

proof fn lemma_swapped(before: Seq<u8>, after: Seq<u8>, i: int, j: int)
    requires
        exchanged(before, after, i, j),
    ensures
        rc4::swapped(before, i, j) == after,
{
    assert(rc4::swapped(before, i, j) =~= after);
}

proof fn lemma_schedule(key: Seq<u8>, states: Seq<Seq<u8>>, swaps: Seq<int>, rounds: nat)
    requires
        key.len() > 0,
        is_schedule(key, states, swaps),
        rounds <= 256,
    ensures
        rc4::scheduled(key, rounds) == (states[rounds as int], swaps[rounds as int]),
    decreases rounds,
{
    if rounds == 0 {
        assert(rc4::scheduled(key, 0).0 =~= states[0]);
    } else {
        let r = rounds - 1;
        lemma_schedule(key, states, swaps, r as nat);
        assert(swaps[r + 1] == (swaps[r] + states[r][r] + key[r % (key.len() as int)]) % 256);
        lemma_swapped(states[r], states[r + 1], r, swaps[r + 1]);
    }
}

proof fn lemma_stream(key: Seq<u8>, states: Seq<Seq<u8>>, seconds: Seq<int>, bytes: nat)
    requires
        is_stream(rc4::scheduled(key, 256).0, states, seconds),
        bytes < states.len(),
    ensures
        rc4::stream(key, bytes).state == states[bytes as int],
        rc4::stream(key, bytes).first == bytes as int % 256,
        rc4::stream(key, bytes).second == seconds[bytes as int],
    decreases bytes,
{
    if bytes > 0 {
        let n = bytes - 1;
        lemma_stream(key, states, seconds, n as nat);
        assert((n % 256 + 1) % 256 == (n + 1) % 256);
        assert(seconds[n + 1] == (seconds[n] + states[n][(n + 1) % 256]) % 256);
        lemma_swapped(states[n], states[n + 1], (n + 1) % 256, seconds[n + 1]);
    }
}

/// RC4 is the run of its states, for a key and data of any length: each byte of the data is
/// combined with the byte of the state found by adding the two just exchanged.
pub proof fn rc4_combines_each_byte_with_its_stream(
    key: Seq<u8>,
    data: Seq<u8>,
    scheduled: Seq<Seq<u8>>,
    swaps: Seq<int>,
    states: Seq<Seq<u8>>,
    seconds: Seq<int>,
    at: int,
)
    requires
        key.len() > 0,
        is_schedule(key, scheduled, swaps),
        is_stream(scheduled[256], states, seconds),
        states.len() == data.len() + 1,
        0 <= at < data.len(),
    ensures
        rc4::enciphered(key, data).len() == data.len(),
        rc4::enciphered(key, data)[at] == data[at] ^ states[at + 1][(states[at + 1][(at + 1) % 256]
            + states[at + 1][seconds[at + 1]]) % 256],
{
    lemma_schedule(key, scheduled, swaps, 256);
    lemma_stream(key, states, seconds, (at + 1) as nat);
}

/// What RC4 does to one byte depends on the key and on where the byte stands, and on no other byte:
/// two texts under one key differ as they did before.
pub proof fn rc4_keeps_what_two_texts_differ_in(key: Seq<u8>, x: Seq<u8>, y: Seq<u8>, at: int)
    requires
        0 <= at < x.len(),
        at < y.len(),
    ensures
        rc4::enciphered(key, x)[at] ^ rc4::enciphered(key, y)[at] == x[at] ^ y[at],
        rc4::enciphered(key, x).len() == x.len(),
{
    let (a, b, mask) = (x[at], y[at], rc4::stream_byte(key, at));
    assert((a ^ mask) ^ (b ^ mask) == a ^ b) by (bit_vector);
}

/// The exported session key is HMAC-MD5 under the response key over the proof; where key exchange
/// is negotiated it is what RC4 under that makes of the sixteen bytes sent, and bytes of any other
/// number are refused.
pub proof fn the_session_key_is_the_base_key_or_what_it_opens(
    response_key: Seq<u8>,
    proof_str: Seq<u8>,
    flags: u32,
    sent: Seq<u8>,
)
    ensures
        flags & 0x4000_0000 == 0 ==> binding::exported_key(response_key, proof_str, flags, sent)
            == Ok::<_, Refusal<Seq<char>>>(crypto::hmac_md5_code(response_key, proof_str)),
        flags & 0x4000_0000 != 0 && sent.len() == 16 ==> {
            &&& binding::exported_key(response_key, proof_str, flags, sent) matches Ok(key)
            &&& key.len() == 16
            &&& rc4::enciphered(crypto::hmac_md5_code(response_key, proof_str), key) == sent
        },
        flags & 0x4000_0000 != 0 && sent.len() != 16 ==> binding::exported_key(
            response_key,
            proof_str,
            flags,
            sent,
        ) == Err::<Seq<u8>, _>(Refusal::<Seq<char>>::SessionKeyLength),
{
    rc4::enciphering_undoes_itself(crypto::hmac_md5_code(response_key, proof_str), sent);
}

/// Whether `covered` is the first message, the second and the third, one after another and every
/// byte of each, but for the sixteen of the third from its seventy-third on, which are zero.
pub open spec fn covers(
    covered: Seq<u8>,
    negotiate: Seq<u8>,
    challenge: Seq<u8>,
    authenticate: Seq<u8>,
) -> bool {
    let (second, third) = (negotiate.len() as int, negotiate.len() + challenge.len());
    &&& covered.len() == negotiate.len() + challenge.len() + authenticate.len()
    &&& forall|i: int| 0 <= i < negotiate.len() ==> covered[i] == #[trigger] negotiate[i]
    &&& forall|i: int| 0 <= i < challenge.len() ==> covered[second + i] == #[trigger] challenge[i]
    &&& forall|i: int|
        0 <= i < authenticate.len() && !(72 <= i < 88) ==> covered[third + i]
            == #[trigger] authenticate[i]
    &&& forall|i: int| third + 72 <= i < third + 88 ==> #[trigger] covered[i] == 0
}

/// What a MIC is computed over is the three messages whole, whatever their lengths, the MIC's own
/// bytes zero; and nothing else is such.
pub proof fn a_mic_is_computed_over_three_whole_messages(
    negotiate: Seq<u8>,
    challenge: Seq<u8>,
    authenticate: Seq<u8>,
    covered: Seq<u8>,
)
    requires
        authenticate.len() >= 88,
    ensures
        covers(
            binding::mic_message(negotiate, challenge, authenticate),
            negotiate,
            challenge,
            authenticate,
        ),
        covers(covered, negotiate, challenge, authenticate) ==> covered == binding::mic_message(
            negotiate,
            challenge,
            authenticate,
        ),
{
    let whole = binding::mic_message(negotiate, challenge, authenticate);
    let (second, third) = (negotiate.len() as int, negotiate.len() + challenge.len());
    let blank = binding::without_mic(authenticate);
    assert(forall|i: int| 0 <= i < blank.len() ==> #[trigger] blank[i] == whole[third + i]);
    assert(forall|i: int|
        0 <= i < authenticate.len() && !(72 <= i < 88) ==> blank[i] == #[trigger] authenticate[i]);
    assert forall|i: int| third + 72 <= i < third + 88 implies #[trigger] whole[i] == 0 by {
        assert(blank[i - third] == 0);
    }
    if covers(covered, negotiate, challenge, authenticate) {
        assert forall|i: int| 0 <= i < covered.len() implies covered[i] == whole[i] by {
            if i < second {
                assert(covered[i] == negotiate[i]);
            } else if i < third {
                assert(covered[second + (i - second)] == challenge[i - second]);
            } else if third + 72 <= i < third + 88 {
                assert(covered[i] == 0);
            } else {
                assert(covered[third + (i - third)] == authenticate[i - third]);
            }
        }
        assert(covered =~= whole);
    }
}

/// Of two exchanges with messages of the same lengths, a MIC covers the same only where their first
/// messages are the same, their second are, and their third are but for the MIC itself.
pub proof fn a_mic_tells_apart_any_two_exchanges(
    negotiate: Seq<u8>,
    challenge: Seq<u8>,
    authenticate: Seq<u8>,
    other_negotiate: Seq<u8>,
    other_challenge: Seq<u8>,
    other_authenticate: Seq<u8>,
)
    requires
        authenticate.len() >= 88,
        negotiate.len() == other_negotiate.len(),
        challenge.len() == other_challenge.len(),
        authenticate.len() == other_authenticate.len(),
        binding::mic_message(negotiate, challenge, authenticate) == binding::mic_message(
            other_negotiate,
            other_challenge,
            other_authenticate,
        ),
    ensures
        negotiate == other_negotiate,
        challenge == other_challenge,
        forall|i: int|
            0 <= i < authenticate.len() && !(72 <= i < 88) ==> #[trigger] authenticate[i]
                == other_authenticate[i],
{
    let whole = binding::mic_message(negotiate, challenge, authenticate);
    let (second, third) = (negotiate.len() as int, negotiate.len() + challenge.len());
    a_mic_is_computed_over_three_whole_messages(negotiate, challenge, authenticate, whole);
    a_mic_is_computed_over_three_whole_messages(
        other_negotiate,
        other_challenge,
        other_authenticate,
        whole,
    );
    assert forall|i: int| 0 <= i < negotiate.len() implies negotiate[i] == other_negotiate[i] by {
        assert(whole[i] == negotiate[i] && whole[i] == other_negotiate[i]);
    }
    assert(negotiate =~= other_negotiate);
    assert forall|i: int| 0 <= i < challenge.len() implies challenge[i] == other_challenge[i] by {
        assert(whole[second + i] == challenge[i] && whole[second + i] == other_challenge[i]);
    }
    assert(challenge =~= other_challenge);
    assert forall|i: int| 0 <= i < authenticate.len() && !(72 <= i < 88) implies
        #[trigger] authenticate[i] == other_authenticate[i] by {
        assert(whole[third + i] == authenticate[i] && whole[third + i] == other_authenticate[i]);
    }
}

/// A MIC holds exactly where the sixteen bytes of the third message from its seventy-third on are
/// HMAC-MD5 under the key over the three messages whole, those bytes zero; a message too short for
/// them is refused as such.
pub proof fn a_mic_holds_exactly_where_it_is_the_code_of_all_three(
    key: Seq<u8>,
    negotiate: Seq<u8>,
    challenge: Seq<u8>,
    authenticate: Seq<u8>,
    covered: Seq<u8>,
)
    ensures
        authenticate.len() < 88 ==> binding::mic_refusal(key, negotiate, challenge, authenticate)
            == Some(Refusal::<Seq<char>>::TooShortForMic),
        authenticate.len() >= 88 && covers(covered, negotiate, challenge, authenticate)
            ==> binding::mic_refusal(key, negotiate, challenge, authenticate) == (
        if authenticate.subrange(72, 88) == crypto::hmac_md5_code(key, covered) {
            None
        } else {
            Some(Refusal::<Seq<char>>::MicMismatch)
        }),
{
    if authenticate.len() >= 88 {
        a_mic_is_computed_over_three_whole_messages(negotiate, challenge, authenticate, covered);
    }
}

/// Four bytes that are a number are the bytes it is written in.
proof fn lemma_written(a: u8, b: u8, c: u8, d: u8, n: u32)
    requires
        a + 0x100 * b + 0x1_0000 * c + 0x100_0000 * d == n,
    ensures
        bytes::le32(n)[0] == a,
        bytes::le32(n)[1] == b,
        bytes::le32(n)[2] == c,
        bytes::le32(n)[3] == d,
{
    let n = n as int;
    assert(n % 0x100 == a);
    assert(n / 0x100 == b + 0x100 * c + 0x1_0000 * d);
    assert(n / 0x1_0000 == c + 0x100 * d);
    assert(n / 0x100_0000 == d);
}

/// A channel is the MD5 of sixteen zero bytes, four that state how long the application data is,
/// and the data whole, whatever its length.
pub proof fn a_channel_is_the_digest_of_its_structure(data: Seq<u8>, structure: Seq<u8>)
    requires
        structure.len() == 20 + data.len(),
        forall|i: int| 0 <= i < 16 ==> #[trigger] structure[i] == 0,
        messages::four_bytes(structure, 16) == if data.len() < 0x1_0000_0000 {
            data.len() as int
        } else {
            0xFFFF_FFFF
        },
        forall|i: int| 0 <= i < data.len() ==> structure[20 + i] == #[trigger] data[i],
    ensures
        binding::channel_hash(data) == crypto::md5_digest(structure),
{
    let zeros = bytes::zeros(16);
    let stated = bytes::le32(binding::stated_length(data.len()));
    let whole = zeros + stated + data;
    lemma_written(
        structure[16],
        structure[17],
        structure[18],
        structure[19],
        binding::stated_length(data.len()),
    );
    assert(stated[0] == structure[16] && stated[1] == structure[17]);
    assert(stated[2] == structure[18] && stated[3] == structure[19]);
    assert(stated.len() == 4);
    assert forall|i: int| 0 <= i < whole.len() implies whole[i] == structure[i] by {
        if i < 16 {
            assert(structure[i] == 0);
        } else if i < 20 {
            assert(whole[i] == stated[i - 16]);
        } else {
            assert(structure[20 + (i - 20)] == data[i - 20]);
        }
    }
    assert(whole =~= structure);
}

/// What stands before a certificate's hash is `tls-server-end-point:`, a byte to each character.
pub proof fn the_channels_prefix_is_the_registered_one()
    ensures
        binding::tls_prefix() == seq![
            0x74u8,
            0x6C,
            0x73,
            0x2D,
            0x73,
            0x65,
            0x72,
            0x76,
            0x65,
            0x72,
            0x2D,
            0x65,
            0x6E,
            0x64,
            0x2D,
            0x70,
            0x6F,
            0x69,
            0x6E,
            0x74,
            0x3A,
        ],
{
    reveal_strlit("tls-server-end-point:");
    assert(binding::tls_prefix() =~= seq![
        0x74u8,
        0x6C,
        0x73,
        0x2D,
        0x73,
        0x65,
        0x72,
        0x76,
        0x65,
        0x72,
        0x2D,
        0x65,
        0x6E,
        0x64,
        0x2D,
        0x70,
        0x6F,
        0x69,
        0x6E,
        0x74,
        0x3A,
    ]);
}

/// An exchange, and what it is held to, are seen as they are.
pub proof fn an_exchange_is_seen_as_it_is(exchange: Exchange<'_>, held: Binding)
    ensures
        match exchange.negotiate {
            Some(negotiate) => exchange@.negotiate == Some(negotiate@),
            None => exchange@.negotiate is None,
        },
        match exchange.challenge {
            Some(challenge) => exchange@.challenge == Some(challenge@),
            None => exchange@.challenge is None,
        },
        match *exchange.announced {
            Ok(announced) => exchange@.announced == Ok::<_, Seq<char>>(announced@),
            Err(why) => exchange@.announced matches Err(seen) && seen == why@,
        },
        exchange@.authenticate == exchange.authenticate@,
        exchange@.read == exchange.read@,
        exchange@.response_key == exchange.response_key@,
        exchange@.server_challenge == exchange.server_challenge@,
        match held.channel {
            Some(channel) => held@.channel == Some(channel@),
            None => held@.channel is None,
        },
        held@.integrity == held.integrity,
{
}

/// Where a channel is held to, a response bound to another is refused as bound to another, and one
/// bound to none as bound to none, whatever else it says.
pub proof fn a_response_is_held_to_its_channel_first(
    held: BindingView,
    client: ClientChallengeView,
    exchange: ExchangeView,
)
    requires
        held.channel is Some,
    ensures
        client.channel is None ==> held.refusal(client, exchange) == Some(
            Refusal::<Seq<char>>::NoChannel,
        ),
        client.channel is Some && client.channel != held.channel ==> held.refusal(client, exchange)
            == Some(Refusal::<Seq<char>>::AnotherChannel),
{
}

/// A response with no MIC to check, because the client says there is none or because a message it
/// covers was not presented, is refused exactly where one is required.
pub proof fn a_mic_that_is_not_there_is_missed_exactly_where_one_is_required(
    held: BindingView,
    client: ClientChallengeView,
    exchange: ExchangeView,
)
    requires
        held.channel is None || client.channel == held.channel,
    ensures
        !client.integrity ==> held.refusal(client, exchange) == (if held.integrity {
            Some(Refusal::<Seq<char>>::NoMic)
        } else {
            None
        }),
        client.integrity && (exchange.negotiate is None || exchange.challenge is None)
            ==> held.refusal(client, exchange) == (if held.integrity {
            Some(Refusal::<Seq<char>>::MicUncheckable)
        } else {
            None
        }),
{
}

/// A MIC that can be checked is checked, required or not: the challenge announced must be the one
/// answered, the session key sent must be sixteen bytes where one is sent, and the MIC must be the
/// code of the three messages whole under that key.
pub proof fn a_mic_that_is_there_must_hold(
    held: BindingView,
    client: ClientChallengeView,
    exchange: ExchangeView,
    key: Seq<u8>,
    covered: Seq<u8>,
)
    requires
        held.channel is None || client.channel == held.channel,
        client.integrity,
        exchange.negotiate is Some,
        exchange.challenge is Some,
        exchange.read.flags & 0x4000_0000 == 0 ==> key == crypto::hmac_md5_code(
            exchange.response_key,
            exchange.read.proof,
        ),
        exchange.read.flags & 0x4000_0000 != 0 ==> key == rc4::enciphered(
            crypto::hmac_md5_code(exchange.response_key, exchange.read.proof),
            exchange.read.session_key,
        ),
        exchange.authenticate.len() >= 88 ==> covers(
            covered,
            exchange.negotiate->Some_0,
            exchange.challenge->Some_0,
            exchange.authenticate,
        ),
    ensures
        exchange.announced matches Err(why) ==> held.refusal(client, exchange) == Some(
            Refusal::Unreadable { why },
        ),
        exchange.announced matches Ok(announced) && announced != exchange.server_challenge
            ==> held.refusal(client, exchange) == Some(Refusal::<Seq<char>>::AnotherChallenge),
        exchange.announced == Ok::<_, Seq<char>>(exchange.server_challenge) ==> held.refusal(
            client,
            exchange,
        ) == (if exchange.read.flags & 0x4000_0000 != 0 && exchange.read.session_key.len() != 16 {
            Some(Refusal::<Seq<char>>::SessionKeyLength)
        } else if exchange.authenticate.len() < 88 {
            Some(Refusal::TooShortForMic)
        } else if exchange.authenticate.subrange(72, 88) != crypto::hmac_md5_code(key, covered) {
            Some(Refusal::MicMismatch)
        } else {
            None
        }),
{
    let negotiate = exchange.negotiate->Some_0;
    let challenge = exchange.challenge->Some_0;
    a_mic_holds_exactly_where_it_is_the_code_of_all_three(
        key,
        negotiate,
        challenge,
        exchange.authenticate,
        covered,
    );
}

} // verus!
