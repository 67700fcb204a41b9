//! RC4, for the one use MS-NLMP has left for it here: opening sixteen bytes of session key. Not
//! a cipher to protect anything with.

use vstd::prelude::*;

verus! {

/// RC4 between two bytes of its stream: the bytes it permutes, and where it stands among them.
pub struct Stream {
    pub state: Seq<u8>,
    pub first: int,
    pub second: int,
}

/// `state` with two of its bytes exchanged.
pub open spec fn swapped(state: Seq<u8>, i: int, j: int) -> Seq<u8> {
    state.update(i, state[j]).update(j, state[i])
}

/// The key schedule after so many of its rounds: the bytes so far, and where the last one was
/// exchanged with.
pub open spec fn scheduled(key: Seq<u8>, rounds: nat) -> (Seq<u8>, int)
    decreases rounds,
{
    if rounds == 0 {
        (Seq::new(256, |i: int| i as u8), 0)
    } else {
        let (state, swap) = scheduled(key, (rounds - 1) as nat);
        let at = rounds - 1;
        let next = (swap + state[at] + key[at % (key.len() as int)]) % 256;
        (swapped(state, at, next), next)
    }
}

/// The stream under `key` after so many of its bytes.
pub open spec fn stream(key: Seq<u8>, bytes: nat) -> Stream
    decreases bytes,
{
    if bytes == 0 {
        Stream { state: scheduled(key, 256).0, first: 0, second: 0 }
    } else {
        let before = stream(key, (bytes - 1) as nat);
        let first = (before.first + 1) % 256;
        let second = (before.second + before.state[first]) % 256;
        Stream { state: swapped(before.state, first, second), first, second }
    }
}

/// The byte of the stream under `key` at `at`.
pub open spec fn stream_byte(key: Seq<u8>, at: int) -> u8 {
    let now = stream(key, (at + 1) as nat);
    now.state[(now.state[now.first] + now.state[now.second]) % 256]
}

/// `data` under the stream of `key`.
pub open spec fn enciphered(key: Seq<u8>, data: Seq<u8>) -> Seq<u8> {
    Seq::new(data.len(), |at: int| data[at] ^ stream_byte(key, at))
}

/// Whether every byte occurs once.
pub open spec fn permutes_bytes(state: Seq<u8>) -> bool {
    state.len() == 256 && state.no_duplicates()
}

proof fn lemma_swapped_permutes(state: Seq<u8>, i: int, j: int)
    requires
        permutes_bytes(state),
        0 <= i < 256,
        0 <= j < 256,
    ensures
        permutes_bytes(swapped(state, i, j)),
{
}

proof fn lemma_scheduled(key: Seq<u8>, rounds: nat)
    requires
        key.len() > 0,
        rounds <= 256,
    ensures
        permutes_bytes(scheduled(key, rounds).0),
        0 <= scheduled(key, rounds).1 < 256,
    decreases rounds,
{
    if rounds > 0 {
        lemma_scheduled(key, (rounds - 1) as nat);
        let (state, swap) = scheduled(key, (rounds - 1) as nat);
        lemma_swapped_permutes(state, rounds - 1, scheduled(key, rounds).1);
    }
}

/// However far the stream has run, every byte occurs in its state once, and it stands within it.
pub proof fn stream_permutes_bytes(key: Seq<u8>, bytes: nat)
    requires
        key.len() > 0,
    ensures
        permutes_bytes(stream(key, bytes).state),
        0 <= stream(key, bytes).first < 256,
        0 <= stream(key, bytes).second < 256,
    decreases bytes,
{
    if bytes == 0 {
        lemma_scheduled(key, 256);
    } else {
        stream_permutes_bytes(key, (bytes - 1) as nat);
        let before = stream(key, (bytes - 1) as nat);
        let now = stream(key, bytes);
        lemma_swapped_permutes(before.state, now.first, now.second);
    }
}

/// The same key opens what it closed.
pub proof fn enciphering_undoes_itself(key: Seq<u8>, data: Seq<u8>)
    ensures
        enciphered(key, enciphered(key, data)) == data,
{
    let once = enciphered(key, data);
    let twice = enciphered(key, once);
    assert forall|at: int| 0 <= at < data.len() implies #[trigger] twice[at] == data[at] by {
        let byte = data[at];
        let mask = stream_byte(key, at);
        assert(once[at] == byte ^ mask);
        assert((byte ^ mask) ^ mask == byte) by (bit_vector);
    }
    assert(twice =~= data);
}

/// Exchanges two bytes.
fn swap(state: &mut Vec<u8>, i: usize, j: usize)
    requires
        i < old(state).len(),
        j < old(state).len(),
    ensures
        final(state)@ == swapped(old(state)@, i as int, j as int),
{
    let held: u8 = state[i];
    let other: u8 = state[j];
    state.set(i, other);
    state.set(j, held);
}

/// RC4 under `key`.
pub fn rc4(key: &[u8], data: &[u8]) -> (result: Vec<u8>)
    requires
        key.len() > 0,
    ensures
        result@ == enciphered(key@, data@),
{
    let mut state: Vec<u8> = Vec::new();
    let mut filled: u8 = 0;
    for at in 0..256usize
        invariant
            state.len() == at,
            filled == at % 256,
            forall|i: int| 0 <= i < at ==> state[i] == i as u8,
    {
        state.push(filled);
        filled = filled.wrapping_add(1);
    }

    assert(state@ =~= scheduled(key@, 0).0);
    let mut next: u8 = 0;
    for at in 0..256usize
        invariant
            key.len() > 0,
            state.len() == 256,
            state@ == scheduled(key@, at as nat).0,
            next as int == scheduled(key@, at as nat).1,
    {
        next = next.wrapping_add(state[at]).wrapping_add(key[at % key.len()]);
        swap(&mut state, at, next as usize);
    }

    let mut first: u8 = 0;
    let mut second: u8 = 0;
    let mut result: Vec<u8> = Vec::new();
    for at in 0..data.len()
        invariant
            state.len() == 256,
            state@ == stream(key@, at as nat).state,
            first as int == stream(key@, at as nat).first,
            second as int == stream(key@, at as nat).second,
            result@ == enciphered(key@, data@).take(at as int),
    {
        let ghost now = stream(key@, (at + 1) as nat);
        first = first.wrapping_add(1);
        assert(first as int == now.first);
        second = second.wrapping_add(state[first as usize]);
        assert(second as int == now.second);
        swap(&mut state, first as usize, second as usize);
        assert(state@ == now.state);
        let mask: usize = state[first as usize].wrapping_add(state[second as usize]) as usize;
        assert(state[mask as int] == stream_byte(key@, at as int));
        result.push(data[at] ^ state[mask]);
        proof {
            let whole = enciphered(key@, data@);
            assert(whole[at as int] == data[at as int] ^ stream_byte(key@, at as int));
            assert(whole.take(at + 1) =~= whole.take(at as int).push(whole[at as int]));
        }
    }
    assert(result@ =~= enciphered(key@, data@));
    result
}

} // verus!
