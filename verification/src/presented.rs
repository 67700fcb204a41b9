//! What is put before the verifier: the claim, its proofs and its evidence, and what the readers of
//! names and of NTLM messages make of them.

use vstd::prelude::*;

verus! {

/// The first value under `name` among pairs of a name and a value.
pub open spec fn first_named(pairs: Seq<(Seq<char>, Seq<char>)>, name: Seq<char>) -> Option<
    Seq<char>,
>
    decreases pairs.len(),
{
    if pairs.len() == 0 {
        None
    } else if pairs.first().0 == name {
        Some(pairs.first().1)
    } else {
        first_named(pairs.drop_first(), name)
    }
}

/// Every value under `name` among pairs of a name and a value, in order.
pub open spec fn all_named(pairs: Seq<(Seq<char>, Seq<char>)>, name: Seq<char>) -> Seq<Seq<char>> {
    pairs.filter_map(
        |pair: (Seq<char>, Seq<char>)|
            if pair.0 == name {
                Some(pair.1)
            } else {
                None
            },
    )
}

/// Strings, as texts.
pub open spec fn texts(strings: Seq<String>) -> Seq<Seq<char>> {
    strings.map_values(|string: String| string@)
}

/// Pairs of strings, as pairs of texts.
pub open spec fn pair_texts(pairs: Seq<(String, String)>) -> Seq<(Seq<char>, Seq<char>)> {
    pairs.map_values(|pair: (String, String)| (pair.0@, pair.1@))
}

/// The first value under `name` among pairs of a name and a value.
fn find<'a>(pairs: &'a Vec<(String, String)>, name: &str) -> (value: Option<&'a String>)
    ensures
        match value {
            Some(value) => first_named(pair_texts(pairs@), name@) == Some(value@),
            None => first_named(pair_texts(pairs@), name@) is None,
        },
{
    let wanted = name.to_owned();
    let ghost all = pair_texts(pairs@);
    assert(all.skip(0) =~= all);
    for at in 0..pairs.len()
        invariant
            all == pair_texts(pairs@),
            wanted@ == name@,
            first_named(all, name@) == first_named(all.skip(at as int), name@),
    {
        assert(all.skip(at as int).drop_first() =~= all.skip(at + 1));
        if pairs[at].0 == wanted {
            return Some(&pairs[at].1);
        }
    }
    None
}

/// Every value under `name` among pairs of a name and a value, in order.
fn find_all(pairs: &Vec<(String, String)>, name: &str) -> (values: Vec<String>)
    ensures
        texts(values@) == all_named(pair_texts(pairs@), name@),
{
    let wanted = name.to_owned();
    let ghost all = pair_texts(pairs@);
    let mut values: Vec<String> = Vec::new();
    assert(texts(values@) =~= all_named(all.take(0), name@));
    for at in 0..pairs.len()
        invariant
            all == pair_texts(pairs@),
            wanted@ == name@,
            texts(values@) == all_named(all.take(at as int), name@),
    {
        assert(all.take(at + 1).drop_last() =~= all.take(at as int));
        if pairs[at].0 == wanted {
            values.push(pairs[at].1.clone());
        }
        assert(texts(values@) =~= all_named(all.take(at + 1), name@));
    }
    assert(all.take(pairs@.len() as int) =~= all);
    values
}

/// A claim, with what it is presented with.
pub struct PresentedView {
    pub mechanism: Seq<char>,
    pub value: Seq<char>,
    pub evidence: Seq<(Seq<char>, Seq<char>)>,
    pub proofs: Seq<(Seq<char>, Seq<char>)>,
}

impl PresentedView {
    /// The proof presented under `name`.
    pub open spec fn proof_under(self, name: Seq<char>) -> Option<Seq<char>> {
        first_named(self.proofs, name)
    }
}

/// A claim, with what it is presented with.
#[derive(Clone, Debug)]
pub struct Presented {
    /// The name of the mechanism the claim is made by.
    pub mechanism: String,
    /// Who the claim says it is.
    pub value: String,
    /// What was filed beside the claim, by name.
    pub evidence: Vec<(String, String)>,
    /// What is to prove the claim, by name.
    pub proofs: Vec<(String, String)>,
}

impl View for Presented {
    type V = PresentedView;

    open spec fn view(&self) -> PresentedView {
        PresentedView {
            mechanism: self.mechanism@,
            value: self.value@,
            evidence: pair_texts(self.evidence@),
            proofs: pair_texts(self.proofs@),
        }
    }
}

impl Presented {
    /// The proof presented under `name`.
    pub fn proof_under(&self, name: &str) -> (found: Option<&String>)
        ensures
            match found {
                Some(found) => self@.proof_under(name@) == Some(found@),
                None => self@.proof_under(name@) is None,
            },
    {
        find(&self.proofs, name)
    }

    /// All the evidence filed under `name`, in order.
    pub fn evidence_under(&self, name: &str) -> (found: Vec<String>)
        ensures
            texts(found@) == all_named(self@.evidence, name@),
    {
        find_all(&self.evidence, name)
    }
}

/// A user principal name.
pub struct PrincipalNameView {
    pub text: Seq<char>,
    pub is_message: bool,
}

/// A user principal name, as the naming rules read one.
#[derive(Clone, Debug)]
pub struct PrincipalName {
    /// The name, written out.
    pub text: String,
    /// Whether it is the account that the message's user and domain name.
    pub is_message: bool,
}

impl View for PrincipalName {
    type V = PrincipalNameView;

    open spec fn view(&self) -> PrincipalNameView {
        PrincipalNameView { text: self.text@, is_message: self.is_message }
    }
}

/// The target a response names.
pub struct TargetView {
    pub text: Seq<char>,
    pub is_expected: bool,
}

/// The target a response names, with its word for it.
#[derive(Clone, Debug)]
pub struct Target {
    /// The name, as the client wrote it.
    pub text: String,
    /// Whether it is a service principal name, and of the service the node says it is.
    pub is_expected: bool,
}

impl View for Target {
    type V = TargetView;

    open spec fn view(&self) -> TargetView {
        TargetView { text: self.text@, is_expected: self.is_expected }
    }
}

/// What a client challenge says.
pub struct ClientChallengeView {
    pub made_at: u64,
    pub target: Option<TargetView>,
    pub untrusted: bool,
    pub integrity: bool,
    pub channel: Option<Seq<u8>>,
}

/// What the client challenge in a response's blob says ([MS-NLMP] 2.2.2.7).
#[derive(Clone, Debug)]
pub struct ClientChallenge {
    /// When the response was made, in seconds since the Unix epoch.
    pub made_at: u64,
    /// The target it names, where it names one and trusts its source.
    pub target: Option<Target>,
    /// Whether it says that it took its target from an untrusted source.
    pub untrusted: bool,
    /// Whether it says that its message carries a MIC.
    pub integrity: bool,
    /// The hash of the channel it is bound to, where it is bound to one.
    pub channel: Option<[u8; 16]>,
}

impl View for ClientChallenge {
    type V = ClientChallengeView;

    open spec fn view(&self) -> ClientChallengeView {
        ClientChallengeView {
            made_at: self.made_at,
            target: match self.target {
                Some(target) => Some(target@),
                None => None,
            },
            untrusted: self.untrusted,
            integrity: self.integrity,
            channel: match self.channel {
                Some(channel) => Some(channel@),
                None => None,
            },
        }
    }
}

/// What the readers of names and of NTLM messages make of a claim.
pub struct ReadingsView {
    pub message: Option<Seq<char>>,
    pub value: Option<PrincipalNameView>,
    pub evidence: Seq<Option<PrincipalNameView>>,
    pub client: Result<Option<ClientChallengeView>, Seq<char>>,
    pub challenge: Result<Seq<u8>, Seq<char>>,
}

impl ReadingsView {
    /// The user principal name that a piece of evidence is, where it is read as one.
    pub open spec fn evidence_at(self, at: int) -> Option<PrincipalNameView> {
        if 0 <= at < self.evidence.len() {
            self.evidence[at]
        } else {
            None
        }
    }

    /// The first of the first `count` pieces of evidence that is a user principal name, and not
    /// the message's.
    pub open spec fn first_other(self, count: nat) -> Option<PrincipalNameView>
        decreases count,
    {
        if count == 0 {
            None
        } else {
            let last = self.evidence_at(count - 1);
            match self.first_other((count - 1) as nat) {
                Some(other) => Some(other),
                None => if last is Some && !last->Some_0.is_message {
                    last
                } else {
                    None
                },
            }
        }
    }
}

/// What the readers of names and of NTLM messages make of a claim. Each reading is a function of
/// the claim and its proofs; the verifier decides on them.
#[derive(Debug)]
pub struct Readings {
    /// The user principal name that the message's user and domain form, where they form one.
    pub message: Option<String>,
    /// The claimed value, where it is a user principal name.
    pub value: Option<PrincipalName>,
    /// One reading for each piece of `principal.user` evidence, in the order it was filed: the
    /// user principal name it is, where it is one.
    pub evidence: Vec<Option<PrincipalName>>,
    /// The client challenge in the response's blob, where it holds one, or why it is not read.
    pub client: Result<Option<ClientChallenge>, String>,
    /// The server challenge in the CHALLENGE message presented, or why it is not read.
    pub challenge: Result<[u8; 8], String>,
}

impl View for Readings {
    type V = ReadingsView;

    open spec fn view(&self) -> ReadingsView {
        ReadingsView {
            message: match self.message {
                Some(message) => Some(message@),
                None => None,
            },
            value: match self.value {
                Some(value) => Some(value@),
                None => None,
            },
            evidence: self.evidence@.map_values(
                |name: Option<PrincipalName>|
                    match name {
                        Some(name) => Some(name@),
                        None => None,
                    },
            ),
            client: match self.client {
                Ok(Some(client)) => Ok(Some(client@)),
                Ok(None) => Ok(None),
                Err(why) => Err(why@),
            },
            challenge: match self.challenge {
                Ok(challenge) => Ok(challenge@),
                Err(why) => Err(why@),
            },
        }
    }
}

} // verus!
