//! What holds of a claim: what is found in it by name, the message it presents, the account it
//! names, and the account the node holds for it.

use crate::account;
use crate::account::AccountView;
use crate::base64_text;
use crate::gate;
use crate::gate::{Opened, OpenedView, Questions, QuestionsView};
use crate::laws::texts;
use crate::message;
use crate::message::AuthenticateView;
use crate::presented;
use crate::presented::{ClientChallenge, Presented, PresentedView, Readings, ReadingsView};
use crate::refusal::Refusal;
use crate::text;
use vstd::prelude::*;

verus! {

/// The value found under a name is the first that stands under it, wherever that is.
pub proof fn the_first_of_a_name_is_found(
    pairs: Seq<(Seq<char>, Seq<char>)>,
    name: Seq<char>,
    at: int,
)
    requires
        0 <= at < pairs.len(),
        pairs[at].0 == name,
        forall|i: int| 0 <= i < at ==> (#[trigger] pairs[i]).0 != name,
    ensures
        presented::first_named(pairs, name) == Some(pairs[at].1),
    decreases pairs.len(),
{
    if at > 0 {
        let rest = pairs.drop_first();
        assert(pairs[0].0 != name);
        assert forall|i: int| 0 <= i < at - 1 implies (#[trigger] rest[i]).0 != name by {
            assert(rest[i] == pairs[i + 1]);
        }
        the_first_of_a_name_is_found(rest, name, at - 1);
    }
}

/// Nothing is found under a name that nothing stands under.
pub proof fn a_name_that_is_not_there_is_not_found(
    pairs: Seq<(Seq<char>, Seq<char>)>,
    name: Seq<char>,
)
    requires
        forall|i: int| 0 <= i < pairs.len() ==> (#[trigger] pairs[i]).0 != name,
    ensures
        presented::first_named(pairs, name) is None,
        presented::all_named(pairs, name).len() == 0,
    decreases pairs.len(),
{
    if pairs.len() > 0 {
        let rest = pairs.drop_first();
        assert(pairs[0].0 != name);
        assert forall|i: int| 0 <= i < rest.len() implies (#[trigger] rest[i]).0 != name by {
            assert(rest[i] == pairs[i + 1]);
        }
        a_name_that_is_not_there_is_not_found(rest, name);
        assert(pairs =~= seq![pairs[0]] + rest);
        what_stands_under_a_name_is_kept_in_order(seq![pairs[0]], rest, name);
        one_value_stands_under_its_own_name(pairs[0].0, pairs[0].1, name);
        assert(seq![pairs[0]] =~= seq![(pairs[0].0, pairs[0].1)]);
    }
}

/// All that stands under a name, in one list and then another, is what stands under it in the one
/// and then in the other.
pub proof fn what_stands_under_a_name_is_kept_in_order(
    x: Seq<(Seq<char>, Seq<char>)>,
    y: Seq<(Seq<char>, Seq<char>)>,
    name: Seq<char>,
)
    ensures
        presented::all_named(x + y, name) == presented::all_named(x, name) + presented::all_named(
            y,
            name,
        ),
    decreases y.len(),
{
    if y.len() == 0 {
        assert(x + y =~= x);
        assert(presented::all_named(y, name) =~= Seq::empty());
        assert(presented::all_named(x, name) + presented::all_named(y, name)
            =~= presented::all_named(x, name));
    } else {
        assert((x + y).drop_last() =~= x + y.drop_last());
        what_stands_under_a_name_is_kept_in_order(x, y.drop_last(), name);
        assert(presented::all_named(x + y, name) =~= presented::all_named(x, name)
            + presented::all_named(y, name));
    }
}

/// One value stands under its own name, and under no other.
pub proof fn one_value_stands_under_its_own_name(
    named: Seq<char>,
    value: Seq<char>,
    name: Seq<char>,
)
    ensures
        presented::all_named(seq![(named, value)], name) == if named == name {
            seq![value]
        } else {
            seq![]
        },
{
    let none = seq![(named, value)].drop_last();
    assert(none =~= Seq::<(Seq<char>, Seq<char>)>::empty());
    assert(presented::all_named(none, name) =~= Seq::<Seq<char>>::empty());
    assert(presented::all_named(seq![(named, value)], name) =~= if named == name {
        seq![value]
    } else {
        seq![]
    });
}

/// A claim is seen as it is presented: every piece of evidence and every proof, in order.
pub proof fn a_claim_is_seen_as_it_is_presented(claim: Presented)
    ensures
        claim@.mechanism == claim.mechanism@,
        claim@.value == claim.value@,
        claim@.evidence.len() == claim.evidence@.len(),
        forall|i: int|
            0 <= i < claim.evidence@.len() ==> {
                &&& (#[trigger] claim@.evidence[i]).0 == claim.evidence@[i].0@
                &&& claim@.evidence[i].1 == claim.evidence@[i].1@
            },
        claim@.proofs.len() == claim.proofs@.len(),
        forall|i: int|
            0 <= i < claim.proofs@.len() ==> {
                &&& (#[trigger] claim@.proofs[i]).0 == claim.proofs@[i].0@
                &&& claim@.proofs[i].1 == claim.proofs@[i].1@
            },
{
}

/// What was read of a claim is seen as it was read.
pub proof fn readings_are_seen_as_they_were_read(readings: Readings)
    ensures
        match readings.message {
            Some(message) => readings@.message == Some(message@),
            None => readings@.message is None,
        },
        match readings.value {
            Some(value) => readings@.value matches Some(seen) && seen.text == value.text@
                && seen.is_message == value.is_message,
            None => readings@.value is None,
        },
        readings@.evidence.len() == readings.evidence@.len(),
        forall|i: int|
            0 <= i < readings.evidence@.len() ==> match readings.evidence@[i] {
                Some(name) => {
                    &&& #[trigger] readings@.evidence[i] matches Some(seen)
                    &&& seen.text == name.text@
                    &&& seen.is_message == name.is_message
                },
                None => readings@.evidence[i] is None,
            },
        match readings.client {
            Ok(Some(client)) => readings@.client == Ok::<_, Seq<char>>(Some(client@)),
            Ok(None) => readings@.client matches Ok(None),
            Err(why) => readings@.client matches Err(seen) && seen == why@,
        },
        match readings.challenge {
            Ok(challenge) => readings@.challenge == Ok::<_, Seq<char>>(challenge@),
            Err(why) => readings@.challenge matches Err(seen) && seen == why@,
        },
{
}

/// A client challenge is seen as it was read.
pub proof fn a_client_challenge_is_seen_as_it_was_read(client: ClientChallenge)
    ensures
        client@.made_at == client.made_at,
        client@.untrusted == client.untrusted,
        client@.integrity == client.integrity,
        match client.target {
            Some(target) => client@.target matches Some(seen) && seen.text == target.text@
                && seen.is_expected == target.is_expected,
            None => client@.target is None,
        },
        match client.channel {
            Some(channel) => client@.channel == Some(channel@),
            None => client@.channel is None,
        },
{
}

/// What is asked of a claim is seen as it is asked: every piece of evidence, in order.
pub proof fn questions_are_seen_as_they_are_asked(questions: Questions)
    ensures
        questions@.user == questions.user@,
        questions@.domain == questions.domain@,
        questions@.value == questions.value@,
        questions@.blob == questions.blob@,
        questions@.evidence.len() == questions.evidence@.len(),
        forall|i: int|
            0 <= i < questions.evidence@.len() ==> #[trigger] questions@.evidence[i]
                == questions.evidence@[i]@,
        match questions.challenge {
            Some(challenge) => questions@.challenge == Some(challenge@),
            None => questions@.challenge is None,
        },
{
}

/// Strings are seen as their texts, one for each and in order.
pub proof fn strings_are_seen_as_their_texts(strings: Seq<String>)
    ensures
        presented::texts(strings).len() == strings.len(),
        forall|i: int|
            0 <= i < strings.len() ==> #[trigger] presented::texts(strings)[i] == strings[i]@,
{
}

/// A message that was read, alone or opened from a claim, is seen as it was read.
pub proof fn a_message_is_seen_as_it_was_read(opened: Opened)
    ensures
        opened@.bytes == opened.bytes@,
        opened@.read == opened.read@,
        opened.read@.user == opened.read.user@,
        opened.read@.domain == opened.read.domain@,
        opened.read@.proof == opened.read.proof@,
        opened.read@.blob == opened.read.blob@,
        opened.read@.flags == opened.read.flags,
        opened.read@.session_key == opened.read.session_key@,
{
}

/// The value of a hexadecimal digit in either case, and none of any other character.
pub open spec fn digit_value(c: char) -> Option<int> {
    if '0' <= c <= '9' {
        Some(c as int - 0x30)
    } else if 'A' <= c <= 'F' {
        Some(c as int - 0x41 + 10)
    } else if 'a' <= c <= 'f' {
        Some(c as int - 0x61 + 10)
    } else {
        None
    }
}

/// A text is an NT hash exactly where it is thirty-two hexadecimal digits in either case, and then
/// its bytes are sixteen, the two digits of each the sixteens and the ones.
pub proof fn a_hash_is_its_digits_two_to_a_byte(digits: Seq<char>)
    ensures
        account::is_nt_hash(digits) <==> digits.len() == 32 && forall|i: int|
            0 <= i < 32 ==> digit_value(#[trigger] digits[i]) is Some,
        account::is_nt_hash(digits) ==> {
            &&& account::nt_hash_bytes(digits).len() == 16
            &&& forall|i: int|
                0 <= i < 16 ==> #[trigger] account::nt_hash_bytes(digits)[i] == 16 * digit_value(
                    digits[2 * i],
                )->Some_0 + digit_value(digits[2 * i + 1])->Some_0
        },
{
    assert forall|c: char| true implies #[trigger] digit_value(c) is Some == account::hex_digit(
        c,
    ) is Some by {}
    if digits.len() == 32 && forall|i: int|
        0 <= i < 32 ==> digit_value(#[trigger] digits[i]) is Some {
        assert forall|i: int| 0 <= i < 32 implies account::hex_digit(#[trigger] digits[i]) is Some by {
            assert(digit_value(digits[i]) is Some);
        }
    }
    if account::is_nt_hash(digits) {
        assert forall|i: int| 0 <= i < 32 implies digit_value(#[trigger] digits[i]) is Some by {
            assert(account::hex_digit(digits[i]) is Some);
        }
        assert forall|i: int| 0 <= i < 16 implies #[trigger] account::nt_hash_bytes(digits)[i] == 16
            * digit_value(digits[2 * i])->Some_0 + digit_value(digits[2 * i + 1])->Some_0 by {
            assert(account::hex_digit(digits[2 * i]) is Some);
            assert(account::hex_digit(digits[2 * i + 1]) is Some);
        }
    }
}

/// An account is its own user's: in its domain where it is held for one and in any where it is
/// not, in whatever case the names are written, and nobody else's.
pub proof fn an_account_is_its_users_and_nobody_elses(
    account: AccountView,
    user: Seq<char>,
    domain: Seq<char>,
)
    ensures
        text::uppercase(account.user) != text::uppercase(user) ==> !account.is_of(user, domain),
        account.domain matches Some(held) && text::uppercase(held) != text::uppercase(domain)
            ==> !account.is_of(user, domain),
        text::uppercase(account.user) == text::uppercase(user) && account.domain is None
            ==> account.is_of(user, domain),
        text::uppercase(account.user) == text::uppercase(user) && (account.domain matches Some(held)
            && text::uppercase(held) == text::uppercase(domain)) ==> account.is_of(user, domain),
{
}

/// The account taken for a user is the first that is the user's, wherever it stands among those
/// held.
pub proof fn the_first_account_of_a_user_is_taken(
    accounts: Seq<AccountView>,
    user: Seq<char>,
    domain: Seq<char>,
    at: int,
)
    requires
        0 <= at < accounts.len(),
        accounts[at].is_of(user, domain),
        forall|i: int| 0 <= i < at ==> !(#[trigger] accounts[i]).is_of(user, domain),
    ensures
        gate::account_of(accounts, user, domain) == Some(accounts[at]),
    decreases accounts.len(),
{
    if at > 0 {
        let rest = accounts.drop_first();
        assert(!accounts[0].is_of(user, domain));
        assert forall|i: int| 0 <= i < at - 1 implies !(#[trigger] rest[i]).is_of(
            user,
            domain,
        ) by {
            assert(rest[i] == accounts[i + 1]);
        }
        the_first_account_of_a_user_is_taken(rest, user, domain, at - 1);
    }
}

/// Where no account held is a user's, none is taken.
pub proof fn no_account_is_taken_for_a_user_of_none(
    accounts: Seq<AccountView>,
    user: Seq<char>,
    domain: Seq<char>,
)
    requires
        forall|i: int| 0 <= i < accounts.len() ==> !(#[trigger] accounts[i]).is_of(user, domain),
    ensures
        gate::account_of(accounts, user, domain) is None,
    decreases accounts.len(),
{
    if accounts.len() > 0 {
        let rest = accounts.drop_first();
        assert(!accounts[0].is_of(user, domain));
        assert forall|i: int| 0 <= i < rest.len() implies !(#[trigger] rest[i]).is_of(
            user,
            domain,
        ) by {
            assert(rest[i] == accounts[i + 1]);
        }
        no_account_is_taken_for_a_user_of_none(rest, user, domain);
    }
}

/// A message presented in base64, with any white space around it, is the message opened, whatever
/// its length and whatever else is presented.
pub proof fn a_message_presented_in_base64_is_opened(
    claim: PresentedView,
    before: Seq<char>,
    bytes: Seq<u8>,
    behind: Seq<char>,
)
    requires
        claim.mechanism == "ntlm"@,
        presented::first_named(claim.proofs, "ntlm.authenticate"@) == Some(
            before + base64_text::encoded(bytes) + behind,
        ),
        forall|i: int| 0 <= i < before.len() ==> text::is_white_space(#[trigger] before[i]),
        forall|i: int| 0 <= i < behind.len() ==> text::is_white_space(#[trigger] behind[i]),
    ensures
        match message::parsed(bytes) {
            Ok(read) => gate::opened(claim) == Ok::<_, Refusal<Seq<char>>>(
                OpenedView { bytes, read },
            ),
            Err(why) => gate::opened(claim) == Err::<OpenedView, _>(why),
        },
{
    let encoded = base64_text::encoded(bytes);
    base64_text::encoding_holds_no_white_space(bytes);
    if encoded.len() > 0 {
        assert(!text::is_white_space(encoded[0]));
        assert(!text::is_white_space(encoded[encoded.len() - 1]));
    }
    texts::white_space_around_a_text_is_trimmed(before, encoded, behind);
    base64_text::decoding_undoes_encoding(bytes);
}

/// What is opened was presented by ntlm, as the base64 of its bytes, and reads as it is opened.
pub proof fn what_is_opened_was_presented(claim: PresentedView)
    ensures
        gate::opened(claim) matches Ok(opened) ==> {
            &&& claim.mechanism == "ntlm"@
            &&& presented::first_named(claim.proofs, "ntlm.authenticate"@) matches Some(shown)
            &&& base64_text::encoded(opened.bytes) == text::trimmed(shown)
            &&& message::parsed(opened.bytes) == Ok::<_, Refusal<Seq<char>>>(opened.read)
        },
        claim.mechanism != "ntlm"@ ==> gate::opened(claim) == Err::<OpenedView, _>(
            Refusal::AnotherMechanism { presented: claim.mechanism },
        ),
        claim.mechanism == "ntlm"@ && presented::first_named(
            claim.proofs,
            "ntlm.authenticate"@,
        ) is None ==> gate::opened(claim) == Err::<OpenedView, _>(Refusal::<Seq<char>>::NoMessage),
        claim.mechanism == "ntlm"@ && (presented::first_named(
            claim.proofs,
            "ntlm.authenticate"@,
        ) matches Some(shown) && forall|any: Seq<u8>|
            #[trigger] base64_text::encoded(any) != text::trimmed(shown)) ==> gate::opened(claim)
            == Err::<OpenedView, _>(Refusal::<Seq<char>>::MessageNotBase64),
{
    if let Some(shown) = presented::first_named(claim.proofs, "ntlm.authenticate"@) {
        let inner = text::trimmed(shown);
        if let Some(bytes) = base64_text::decoded(inner) {
            texts::base64_is_read_as_what_it_is_written_of(inner, bytes);
        }
    }
}

/// A proof presented is read as the bytes whose base64 it is, white space around it aside; where
/// it is the base64 of none it is refused by its name, and where it is not presented there is
/// nothing to read.
pub proof fn a_proof_is_read_as_the_bytes_whose_base64_it_is(
    claim: PresentedView,
    name: Seq<char>,
    bytes: Seq<u8>,
)
    ensures
        gate::decoded_proof(claim, name) == Ok::<_, Refusal<Seq<char>>>(Some(bytes)) <==> (
        presented::first_named(claim.proofs, name) matches Some(shown) && base64_text::encoded(bytes)
            == text::trimmed(shown)),
        gate::decoded_proof(claim, name) == Ok::<_, Refusal<Seq<char>>>(None::<Seq<u8>>)
            <==> presented::first_named(claim.proofs, name) is None,
        gate::decoded_proof(claim, name) is Err <==> (presented::first_named(
            claim.proofs,
            name,
        ) matches Some(shown) && forall|any: Seq<u8>|
            #[trigger] base64_text::encoded(any) != text::trimmed(shown)),
        gate::decoded_proof(claim, name) matches Err(why) ==> why == (Refusal::ProofNotBase64 {
            name,
        }),
{
    if let Some(shown) = presented::first_named(claim.proofs, name) {
        texts::base64_is_read_as_what_it_is_written_of(text::trimmed(shown), bytes);
    }
}

/// What is to be read of a claim is the message's names and blob, the value claimed, every piece of
/// `principal.user` evidence and the CHALLENGE message presented; a claim whose message is not
/// opened is refused for the same reason unread.
pub proof fn what_is_asked_of_a_claim_is_what_it_presents(claim: PresentedView)
    ensures
        match gate::opened(claim) {
            Err(why) => gate::asked(claim) == Err::<QuestionsView, _>(why),
            Ok(opened) => {
                &&& gate::asked(claim) matches Ok(asked)
                &&& asked.user == opened.read.user
                &&& asked.domain == opened.read.domain
                &&& asked.blob == opened.read.blob
                &&& asked.value == claim.value
                &&& asked.evidence == presented::all_named(claim.evidence, "principal.user"@)
                &&& match gate::decoded_proof(claim, "ntlm.challenge"@) {
                    Ok(Some(challenge)) => asked.challenge == Some(challenge),
                    _ => asked.challenge is None,
                }
            },
        },
{
}

/// The account a claim names is the message's exactly where a bare user is the message's user as
/// written, a principal name claimed is the message's, and so is every piece of `principal.user`
/// evidence that is a principal name, however much is filed; where the message's names form no
/// principal name, only the user counts.
pub proof fn a_claim_is_the_messages_account_exactly_where_every_name_is(
    read: AuthenticateView,
    claim: PresentedView,
    readings: ReadingsView,
)
    ensures
        gate::claim_refusal(read, claim, readings) is None <==> {
            &&& readings.message is None || readings.value is None ==> read.user == claim.value
            &&& readings.message is Some && readings.value is Some
                ==> readings.value->Some_0.is_message
            &&& readings.message is Some ==> forall|i: int|
                0 <= i < presented::all_named(claim.evidence, "principal.user"@).len() && 0 <= i
                    < readings.evidence.len() && (#[trigger] readings.evidence[i]) is Some
                    ==> readings.evidence[i]->Some_0.is_message
        },
{
    let filed = presented::all_named(claim.evidence, "principal.user"@).len();
    lemma_no_other_exactly_where_every_name_is(readings, filed);
}

proof fn lemma_no_other_exactly_where_every_name_is(readings: ReadingsView, count: nat)
    ensures
        readings.first_other(count) is None <==> forall|i: int|
            0 <= i < count && 0 <= i < readings.evidence.len() && (
            #[trigger] readings.evidence[i]) is Some ==> readings.evidence[i]->Some_0.is_message,
    decreases count,
{
    if count > 0 {
        lemma_no_other_exactly_where_every_name_is(readings, (count - 1) as nat);
        let at = count - 1;
        if at < readings.evidence.len() {
            assert(readings.evidence_at(at) == readings.evidence[at]);
        }
    }
}

/// A claim of another account is refused naming both: the claimed value where that is a principal
/// name and not the message's, and else the first such piece of evidence.
pub proof fn a_claim_of_another_account_is_refused_naming_both(
    read: AuthenticateView,
    claim: PresentedView,
    readings: ReadingsView,
    at: int,
)
    requires
        readings.message is Some,
    ensures
        readings.value matches Some(value) && !value.is_message ==> gate::claim_refusal(
            read,
            claim,
            readings,
        ) == Some(
            Refusal::AnotherAccount {
                message: readings.message->Some_0,
                claim: readings.value->Some_0.text,
            },
        ),
        readings.value is None && read.user != claim.value ==> gate::claim_refusal(
            read,
            claim,
            readings,
        ) == Some(Refusal::<Seq<char>>::AnotherUser),
        ({
            &&& readings.value matches Some(value) ==> value.is_message
            &&& readings.value is None ==> read.user == claim.value
            &&& 0 <= at < readings.evidence.len()
            &&& at < presented::all_named(claim.evidence, "principal.user"@).len()
            &&& readings.evidence[at] matches Some(name) && !name.is_message
            &&& forall|i: int|
                0 <= i < at && (#[trigger] readings.evidence[i]) is Some
                    ==> readings.evidence[i]->Some_0.is_message
        }) ==> gate::claim_refusal(read, claim, readings) == Some(
            Refusal::AnotherAccount {
                message: readings.message->Some_0,
                claim: readings.evidence[at]->Some_0.text,
            },
        ),
{
    let filed = presented::all_named(claim.evidence, "principal.user"@).len();
    if 0 <= at < readings.evidence.len() && at < filed && (readings.evidence[at] matches Some(name)
        && !name.is_message) && forall|i: int|
        0 <= i < at && (#[trigger] readings.evidence[i]) is Some
            ==> readings.evidence[i]->Some_0.is_message {
        lemma_no_other_exactly_where_every_name_is(readings, at as nat);
        assert(readings.evidence_at(at) == readings.evidence[at]);
        assert(readings.first_other((at + 1) as nat) == readings.evidence[at]);
        gate::lemma_first_other_stays(readings, (at + 1) as nat, filed);
    }
}

/// Where the message's names form no principal name, a claim that is not the message's user as
/// written is refused.
pub proof fn a_claim_of_another_user_is_refused(
    read: AuthenticateView,
    claim: PresentedView,
    readings: ReadingsView,
)
    requires
        readings.message is None,
        read.user != claim.value,
    ensures
        gate::claim_refusal(read, claim, readings) == Some(Refusal::<Seq<char>>::AnotherUser),
{
}

} // verus!
