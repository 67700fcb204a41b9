//! What holds of a refusal's words: whatever a refusal is about can be read in them, whole.

use crate::refusal::{AuthenticateError, Field, Refusal};
use crate::text;
use vstd::prelude::*;

verus! {

/// Whether `name` stands in `words` at `at`, whole, between other words.
pub open spec fn stands_at(words: Seq<char>, name: Seq<char>, at: int) -> bool {
    &&& 0 < at
    &&& at + name.len() <= words.len()
    &&& words.subrange(at, at + name.len()) == name
}

/// Whether `name` can be read in `words`, whole.
pub open spec fn says(words: Seq<char>, name: Seq<char>) -> bool {
    exists|at: int| stands_at(words, name, at)
}

/// Whether `first` can be read in `words` and `second` behind it, both whole.
pub open spec fn says_both(words: Seq<char>, first: Seq<char>, second: Seq<char>) -> bool {
    exists|at: int, then: int| #[trigger]
        stands_at(words, first, at) && #[trigger] stands_at(words, second, then) && at + first.len()
            < then
}

proof fn lemma_says(before: Seq<char>, name: Seq<char>, behind: Seq<char>)
    requires
        before.len() > 0,
    ensures
        says(before + name + behind, name),
{
    let words = before + name + behind;
    assert(words.subrange(before.len() as int, (before.len() + name.len()) as int) =~= name);
    assert(stands_at(words, name, before.len() as int));
}

proof fn lemma_says_both(
    before: Seq<char>,
    first: Seq<char>,
    between: Seq<char>,
    second: Seq<char>,
    behind: Seq<char>,
)
    requires
        before.len() > 0,
        between.len() > 0,
    ensures
        says_both(before + first + between + second + behind, first, second),
{
    let words = before + first + between + second + behind;
    let at = before.len() as int;
    let then = (before.len() + first.len() + between.len()) as int;
    assert(words.subrange(at, at + first.len()) =~= first);
    assert(words.subrange(then, then + second.len()) =~= second);
    assert(stands_at(words, first, at) && stands_at(words, second, then));
}

/// A mechanism, a proof or a target that was refused, whatever its name, is named.
pub proof fn a_refusal_names_what_was_presented(name: Seq<char>)
    ensures
        says((Refusal::AnotherMechanism { presented: name }).text(), name),
        says((Refusal::ProofNotBase64 { name }).text(), name),
        says((Refusal::TargetUntrusted { expected: name }).text(), name),
        says((Refusal::NoTarget { expected: name }).text(), name),
        (Refusal::Unreadable { why: name }).text() == name,
{
    reveal_strlit("'");
    lemma_says("'"@, name, "' was presented and this authenticator verifies ntlm"@);
    reveal_strlit("the ");
    lemma_says("the "@, name, " proof is not base64"@);
    reveal_strlit("the node expects the target '");
    lemma_says(
        "the node expects the target '"@,
        name,
        "' and the response names a target it took from an untrusted source"@,
    );
    lemma_says("the node expects the target '"@, name, "' and the response names no target"@);
}

/// Where two accounts, or two services, are not the same, both are named, the message's first; and
/// a user the node holds no hash for is named with the domain.
pub proof fn a_refusal_of_another_names_both(first: Seq<char>, second: Seq<char>)
    ensures
        says_both(
            (Refusal::AnotherAccount { message: first, claim: second }).text(),
            first,
            second,
        ),
        says_both((Refusal::AnotherTarget { named: first, expected: second }).text(), first, second),
        says_both((Refusal::NoAccount { user: first, domain: second }).text(), first, second),
{
    reveal_strlit("the type 3 message names '");
    reveal_strlit("' and the claim names '");
    lemma_says_both(
        "the type 3 message names '"@,
        first,
        "' and the claim names '"@,
        second,
        "': another account"@,
    );
    reveal_strlit("the response was made for '");
    reveal_strlit("' and this node is '");
    lemma_says_both(
        "the response was made for '"@,
        first,
        "' and this node is '"@,
        second,
        "'"@,
    );
    reveal_strlit("the node holds no NT hash for '");
    reveal_strlit("' in domain '");
    lemma_says_both("the node holds no NT hash for '"@, first, "' in domain '"@, second, "'"@);
}

/// A response made too far from now is told how far, and how far is too far, in whole decimal
/// numbers.
pub proof fn a_refusal_of_a_time_tells_both_numbers(apart: u64, lifetime: u64)
    ensures
        says_both(
            (Refusal::<Seq<char>>::TooFarOff { apart, lifetime }).text(),
            text::decimal(apart as nat),
            text::decimal(lifetime as nat),
        ),
{
    let words = (Refusal::<Seq<char>>::TooFarOff { apart, lifetime }).text();
    let (far, most) = (text::decimal(apart as nat), text::decimal(lifetime as nat));
    reveal_strlit("the response was made ");
    reveal_strlit(" seconds from the node's clock, and the node takes none further off than ");
    lemma_says_both(
        "the response was made "@,
        far,
        " seconds from the node's clock, and the node takes none further off than "@,
        most,
        seq![],
    );
    assert(words =~= "the response was made "@ + far
        + " seconds from the node's clock, and the node takes none further off than "@ + most
        + seq![]);
}

/// A field that is not read is named, as MS-NLMP names it.
pub proof fn a_refusal_of_a_field_names_it(field: Field)
    ensures
        says((Refusal::<Seq<char>>::TruncatedBeforeField { field }).text(), field.text()),
        says((Refusal::<Seq<char>>::FieldOutside { field }).text(), field.text()),
        says((Refusal::<Seq<char>>::NotUtf16 { field }).text(), field.text()),
        field.text() == match field {
            Field::NtChallengeResponse => "NtChallengeResponse"@,
            Field::UserName => "UserName"@,
            Field::DomainName => "DomainName"@,
        },
{
    reveal_strlit("the NTLM AUTHENTICATE message is truncated before its ");
    lemma_says(
        "the NTLM AUTHENTICATE message is truncated before its "@,
        field.text(),
        " field"@,
    );
    reveal_strlit("the NTLM AUTHENTICATE message's ");
    lemma_says(
        "the NTLM AUTHENTICATE message's "@,
        field.text(),
        " points outside the message"@,
    );
    reveal_strlit("the NTLM ");
    lemma_says("the NTLM "@, field.text(), " is not UTF-16"@);
}

/// Whether two sayings are the same but for one name in each, which stands at the same place.
pub open spec fn differ_in_a_name(
    words: Seq<char>,
    name: Seq<char>,
    other_words: Seq<char>,
    other: Seq<char>,
) -> bool {
    exists|at: int| #[trigger]
        stands_at(words, name, at) && stands_at(other_words, other, at) && words.take(at)
            == other_words.take(at) && words.skip(at + name.len()) == other_words.skip(
            at + other.len(),
        )
}

proof fn lemma_differ(before: Seq<char>, name: Seq<char>, other: Seq<char>, behind: Seq<char>)
    requires
        before.len() > 0,
    ensures
        differ_in_a_name(before + name + behind, name, before + other + behind, other),
{
    let (words, other_words) = (before + name + behind, before + other + behind);
    let at = before.len() as int;
    assert(words.subrange(at, at + name.len()) =~= name);
    assert(other_words.subrange(at, at + other.len()) =~= other);
    assert(words.take(at) =~= other_words.take(at));
    assert(words.skip(at + name.len()) =~= behind);
    assert(other_words.skip(at + other.len()) =~= behind);
    assert(stands_at(words, name, at) && stands_at(other_words, other, at));
}

/// Two refusals of a kind that names one thing are the same words but for the name, whatever the
/// names.
pub proof fn refusals_of_one_kind_differ_in_the_name(name: Seq<char>, other: Seq<char>)
    ensures
        differ_in_a_name(
            (Refusal::AnotherMechanism { presented: name }).text(),
            name,
            (Refusal::AnotherMechanism { presented: other }).text(),
            other,
        ),
        differ_in_a_name(
            (Refusal::ProofNotBase64 { name }).text(),
            name,
            (Refusal::ProofNotBase64 { name: other }).text(),
            other,
        ),
        differ_in_a_name(
            (Refusal::TargetUntrusted { expected: name }).text(),
            name,
            (Refusal::TargetUntrusted { expected: other }).text(),
            other,
        ),
        differ_in_a_name(
            (Refusal::NoTarget { expected: name }).text(),
            name,
            (Refusal::NoTarget { expected: other }).text(),
            other,
        ),
{
    reveal_strlit("'");
    lemma_differ("'"@, name, other, "' was presented and this authenticator verifies ntlm"@);
    reveal_strlit("the ");
    lemma_differ("the "@, name, other, " proof is not base64"@);
    reveal_strlit("the node expects the target '");
    lemma_differ(
        "the node expects the target '"@,
        name,
        other,
        "' and the response names a target it took from an untrusted source"@,
    );
    lemma_differ(
        "the node expects the target '"@,
        name,
        other,
        "' and the response names no target"@,
    );
}

/// Two refusals of a kind that names two things, or tells two numbers, are the same words but for
/// the first where only that is another, and but for the second where only that is.
pub proof fn refusals_that_name_two_differ_in_either(
    first: Seq<char>,
    second: Seq<char>,
    other: Seq<char>,
    apart: u64,
    lifetime: u64,
    number: u64,
)
    ensures
        differ_in_a_name(
            (Refusal::AnotherAccount { message: first, claim: second }).text(),
            first,
            (Refusal::AnotherAccount { message: other, claim: second }).text(),
            other,
        ),
        differ_in_a_name(
            (Refusal::AnotherAccount { message: first, claim: second }).text(),
            second,
            (Refusal::AnotherAccount { message: first, claim: other }).text(),
            other,
        ),
        differ_in_a_name(
            (Refusal::AnotherTarget { named: first, expected: second }).text(),
            first,
            (Refusal::AnotherTarget { named: other, expected: second }).text(),
            other,
        ),
        differ_in_a_name(
            (Refusal::AnotherTarget { named: first, expected: second }).text(),
            second,
            (Refusal::AnotherTarget { named: first, expected: other }).text(),
            other,
        ),
        differ_in_a_name(
            (Refusal::NoAccount { user: first, domain: second }).text(),
            first,
            (Refusal::NoAccount { user: other, domain: second }).text(),
            other,
        ),
        differ_in_a_name(
            (Refusal::NoAccount { user: first, domain: second }).text(),
            second,
            (Refusal::NoAccount { user: first, domain: other }).text(),
            other,
        ),
        differ_in_a_name(
            (Refusal::<Seq<char>>::TooFarOff { apart, lifetime }).text(),
            text::decimal(apart as nat),
            (Refusal::<Seq<char>>::TooFarOff { apart: number, lifetime }).text(),
            text::decimal(number as nat),
        ),
        differ_in_a_name(
            (Refusal::<Seq<char>>::TooFarOff { apart, lifetime }).text(),
            text::decimal(lifetime as nat),
            (Refusal::<Seq<char>>::TooFarOff { apart, lifetime: number }).text(),
            text::decimal(number as nat),
        ),
{
    reveal_strlit("the type 3 message names '");
    reveal_strlit("the response was made for '");
    reveal_strlit("the node holds no NT hash for '");
    reveal_strlit("the response was made ");
    lemma_differ_in_either(
        "the type 3 message names '"@,
        first,
        "' and the claim names '"@,
        second,
        "': another account"@,
        other,
    );
    lemma_differ_in_either(
        "the response was made for '"@,
        first,
        "' and this node is '"@,
        second,
        "'"@,
        other,
    );
    lemma_differ_in_either(
        "the node holds no NT hash for '"@,
        first,
        "' in domain '"@,
        second,
        "'"@,
        other,
    );
    let (far, most, digits) = (
        text::decimal(apart as nat),
        text::decimal(lifetime as nat),
        text::decimal(number as nat),
    );
    let opening = "the response was made "@;
    let between = " seconds from the node's clock, and the node takes none further off than "@;
    lemma_differ_in_either(opening, far, between, most, seq![], digits);
    assert(opening + far + between + most =~= opening + far + between + most + seq![]);
    assert(opening + digits + between + most =~= opening + digits + between + most + seq![]);
    assert(opening + far + between + digits =~= opening + far + between + digits + seq![]);
}

proof fn lemma_differ_in_either(
    before: Seq<char>,
    first: Seq<char>,
    between: Seq<char>,
    second: Seq<char>,
    behind: Seq<char>,
    other: Seq<char>,
)
    requires
        before.len() > 0,
    ensures
        differ_in_a_name(
            before + first + between + second + behind,
            first,
            before + other + between + second + behind,
            other,
        ),
        differ_in_a_name(
            before + first + between + second + behind,
            second,
            before + first + between + other + behind,
            other,
        ),
{
    lemma_differ(before, first, other, between + second + behind);
    assert(before + first + between + second + behind =~= before + first + (between + second
        + behind));
    assert(before + other + between + second + behind =~= before + other + (between + second
        + behind));
    lemma_differ(before + first + between, second, other, behind);
}

/// A refusal that names nothing says what did not hold.
pub proof fn a_refusal_that_names_nothing_says_what_did_not_hold(why: Refusal<Seq<char>>)
    ensures
        match why {
            Refusal::HashNotHexadecimal => why.text()
                == "an NT hash is thirty-two hexadecimal digits"@,
            Refusal::NoMessage => why.text() == "no ntlm.authenticate proof was presented"@,
            Refusal::MessageNotBase64 => why.text() == "the NTLM message is not base64"@,
            Refusal::NoSignature => why.text() == "the NTLM message has no NTLMSSP signature"@,
            Refusal::NotAuthenticate => why.text()
                == "the NTLM message is not an AUTHENTICATE (type 3) message"@,
            Refusal::TruncatedBeforeFlags => why.text()
                == "the NTLM AUTHENTICATE message is truncated before its flags"@,
            Refusal::NtlmV1 => why.text()
                == "the NT response is NTLMv1 and this node verifies NTLMv2 only"@,
            Refusal::NoNtlmV2 => why.text()
                == "the NTLM AUTHENTICATE message carries no NTLMv2 response"@,
            Refusal::NotClientChallenge => why.text()
                == "the NT response's blob is not an NTLMv2 client challenge"@,
            Refusal::AnotherUser => why.text()
                == "the type 3 message's user is not the claimed value"@,
            Refusal::NoChallenge => why.text()
                == "the node has no server challenge outstanding: none issued, or already spent"@,
            Refusal::NotProven => why.text()
                == "the NTLMv2 response does not prove under the stored hash and any outstanding challenge"@,
            Refusal::AnotherChannel => why.text()
                == "the response is bound to another channel than the one this node serves: it was made for a connection to someone else"@,
            Refusal::NoChannel => why.text()
                == "the node holds clients to its channel and the response is bound to none"@,
            Refusal::NoMic => why.text()
                == "the node requires a MIC and the response says its message carries none"@,
            Refusal::MicUncheckable => why.text()
                == "the node requires a MIC and the transport presented no ntlm.negotiate and ntlm.challenge to check it over"@,
            Refusal::AnotherChallenge => why.text()
                == "the CHALLENGE message presented is not the one the response proved under"@,
            Refusal::SessionKeyLength => why.text()
                == "key exchange was negotiated and the EncryptedRandomSessionKey is not sixteen bytes"@,
            Refusal::TooShortForMic => why.text()
                == "the response says its message carries a MIC and the message is too short to"@,
            Refusal::MicMismatch => why.text()
                == "the MIC does not verify: a message of this exchange was changed on its way"@,
            _ => true,
        },
{
}

/// A refusal is seen as the one it is, with all that it names.
pub proof fn a_refusal_is_seen_as_it_is(refusal: AuthenticateError)
    ensures
        match refusal {
            Refusal::HashNotHexadecimal => refusal@ is HashNotHexadecimal,
            Refusal::AnotherMechanism { presented } => refusal@ == (Refusal::AnotherMechanism {
                presented: presented@,
            }),
            Refusal::NoMessage => refusal@ is NoMessage,
            Refusal::MessageNotBase64 => refusal@ is MessageNotBase64,
            Refusal::NoSignature => refusal@ is NoSignature,
            Refusal::NotAuthenticate => refusal@ is NotAuthenticate,
            Refusal::TruncatedBeforeFlags => refusal@ is TruncatedBeforeFlags,
            Refusal::TruncatedBeforeField { field } => refusal@ == (Refusal::<Seq<char>>::TruncatedBeforeField {
                field,
            }),
            Refusal::FieldOutside { field } => refusal@ == (Refusal::<Seq<char>>::FieldOutside {
                field,
            }),
            Refusal::NtlmV1 => refusal@ is NtlmV1,
            Refusal::NoNtlmV2 => refusal@ is NoNtlmV2,
            Refusal::NotClientChallenge => refusal@ is NotClientChallenge,
            Refusal::NotUtf16 { field } => refusal@ == (Refusal::<Seq<char>>::NotUtf16 { field }),
            Refusal::AnotherUser => refusal@ is AnotherUser,
            Refusal::AnotherAccount { message, claim } => refusal@ == (Refusal::AnotherAccount {
                message: message@,
                claim: claim@,
            }),
            Refusal::NoAccount { user, domain } => refusal@ == (Refusal::NoAccount {
                user: user@,
                domain: domain@,
            }),
            Refusal::NoChallenge => refusal@ is NoChallenge,
            Refusal::NotProven => refusal@ is NotProven,
            Refusal::Unreadable { why } => refusal@ == (Refusal::Unreadable { why: why@ }),
            Refusal::TooFarOff { apart, lifetime } => refusal@ == (Refusal::<Seq<char>>::TooFarOff {
                apart,
                lifetime,
            }),
            Refusal::TargetUntrusted { expected } => refusal@ == (Refusal::TargetUntrusted {
                expected: expected@,
            }),
            Refusal::NoTarget { expected } => refusal@ == (Refusal::NoTarget {
                expected: expected@,
            }),
            Refusal::AnotherTarget { named, expected } => refusal@ == (Refusal::AnotherTarget {
                named: named@,
                expected: expected@,
            }),
            Refusal::ProofNotBase64 { name } => refusal@ == (Refusal::ProofNotBase64 {
                name: name@,
            }),
            Refusal::AnotherChannel => refusal@ is AnotherChannel,
            Refusal::NoChannel => refusal@ is NoChannel,
            Refusal::NoMic => refusal@ is NoMic,
            Refusal::MicUncheckable => refusal@ is MicUncheckable,
            Refusal::AnotherChallenge => refusal@ is AnotherChallenge,
            Refusal::SessionKeyLength => refusal@ is SessionKeyLength,
            Refusal::TooShortForMic => refusal@ is TooShortForMic,
            Refusal::MicMismatch => refusal@ is MicMismatch,
        },
{
}

} // verus!
