use authenticate_ntlm::gate::{
    claimed_by, decoded, ntowf_v2, open, MECHANISM, OUTSTANDING, USER_EVIDENCE,
};
use authenticate_ntlm::rc4::rc4;
use authenticate_ntlm::{
    questions, Account, Authenticate, AuthenticateError, ChannelBindings, ClientChallenge, Presented,
    PrincipalName, Readings, Target, Verified, Verifier, AUTHENTICATE_PROOF, CHALLENGE_PROOF,
    LIFETIME, NEGOTIATE_PROOF,
};
use base64::engine::general_purpose::STANDARD;
use base64::Engine;
use hmac::{Hmac, Mac};
use md4::{Digest, Md4};
use md5::Md5;

const CHALLENGE: [u8; 8] = [1, 2, 3, 4, 5, 6, 7, 8];
const NOW: i64 = 1_800_000_000;
const HERE: &str = "HTTP/xmip.example";

fn hmac(key: &[u8], message: &[u8]) -> [u8; 16] {
    let mut mac = <Hmac<Md5> as Mac>::new_from_slice(key).expect("a key");
    mac.update(message);
    mac.finalize().into_bytes().into()
}

fn utf16(text: &str) -> Vec<u8> {
    text.encode_utf16().flat_map(u16::to_le_bytes).collect()
}

fn nt_hash(password: &str) -> [u8; 16] {
    Md4::digest(utf16(password)).into()
}

fn hex(bytes: &[u8]) -> String {
    bytes.iter().map(|byte| format!("{byte:02x}")).collect()
}

/// A Unicode type 3: MS-NLMP 2.2.1.3, with room for a MIC where it carries a session key.
fn type3_exchanging(
    user: &str,
    domain: &str,
    response: &[u8],
    flags: u32,
    session_key: &[u8],
) -> Vec<u8> {
    let payloads = [
        vec![0; 24],
        response.to_vec(),
        utf16(domain),
        utf16(user),
        utf16("WORKSTATION"),
        session_key.to_vec(),
    ];
    let room: u32 = if session_key.is_empty() { 0 } else { 24 };
    let mut message = b"NTLMSSP\0".to_vec();
    message.extend_from_slice(&3u32.to_le_bytes());
    let mut offset: u32 = 64 + room;
    for payload in &payloads {
        let length = u16::try_from(payload.len()).expect("a short field");
        message.extend_from_slice(&length.to_le_bytes());
        message.extend_from_slice(&length.to_le_bytes());
        message.extend_from_slice(&offset.to_le_bytes());
        offset += u32::from(length);
    }
    message.extend_from_slice(&(flags | 1).to_le_bytes());
    message.extend(vec![0; room as usize]);
    for payload in &payloads {
        message.extend_from_slice(payload);
    }
    message
}

fn type3(user: &str, domain: &str, response: &[u8]) -> Vec<u8> {
    type3_exchanging(user, domain, response, 0, &[])
}

/// A client challenge with this time, target, flags and channel: its bytes, and what they say to
/// a node that is `HERE`.
fn blob_bound(
    seconds: u64,
    target: Option<&str>,
    flags: u32,
    channel: Option<[u8; 16]>,
) -> (Vec<u8>, ClientChallenge) {
    let mut blob = vec![1, 1, 0, 0, 0, 0, 0, 0];
    blob.extend_from_slice(&((seconds + 11_644_473_600) * 10_000_000).to_le_bytes());
    blob.extend_from_slice(&[0xaa; 8]);
    blob.extend_from_slice(&[0; 4]);
    let mut pair = |id: u16, value: &[u8]| {
        blob.extend_from_slice(&id.to_le_bytes());
        blob.extend_from_slice(&(value.len() as u16).to_le_bytes());
        blob.extend_from_slice(value);
    };
    pair(6, &flags.to_le_bytes());
    if let Some(target) = target {
        pair(9, &utf16(target));
    }
    if let Some(channel) = channel {
        pair(10, &channel);
    }
    pair(0, &[]);
    let untrusted = flags & 4 != 0;
    let client = ClientChallenge {
        made_at: seconds,
        target: target.filter(|_| !untrusted).map(|target| Target {
            text: target.to_string(),
            is_expected: target.to_lowercase() == HERE.to_lowercase(),
        }),
        untrusted,
        integrity: flags & 2 != 0,
        channel,
    };
    (blob, client)
}

fn blob_for(seconds: u64, target: Option<&str>, flags: u32) -> (Vec<u8>, ClientChallenge) {
    blob_bound(seconds, target, flags, None)
}

/// A client challenge of fixed bytes, and what these tests take it to say: made now, with no
/// target, no MIC and no channel.
fn blob() -> (Vec<u8>, ClientChallenge) {
    let mut blob = vec![1, 1, 0, 0, 0, 0, 0, 0];
    blob.extend_from_slice(&[0x11; 8]);
    blob.extend_from_slice(&[0xaa; 8]);
    blob.extend_from_slice(&[0; 8]);
    (blob, blob_for(NOW.unsigned_abs(), None, 0).1)
}

/// What a client does with a password and the server's challenge.
fn minted(user: &str, domain: &str, password: &str, challenge: [u8; 8]) -> String {
    minted_over(user, domain, password, challenge, &blob().0)
}

/// The same, over a blob of the test's choosing: its time, its target.
fn minted_over(
    user: &str,
    domain: &str,
    password: &str,
    challenge: [u8; 8],
    blob: &[u8],
) -> String {
    let key = ntowf_v2(&nt_hash(password), user, domain);
    let mut response = hmac(&key, &[&challenge[..], blob].concat()).to_vec();
    response.extend_from_slice(blob);
    STANDARD.encode(type3(user, domain, &response))
}

fn node() -> Verifier {
    let account = Account::from_hex("Alice", &hex(&nt_hash("correct horse"))).expect("hex");
    let mut node = Verifier::new(vec![account.in_domain("corp")]);
    node.issued(CHALLENGE);
    node
}

fn passed(mechanism: &str, value: &str) -> Presented {
    Presented {
        mechanism: mechanism.to_string(),
        value: value.to_string(),
        evidence: Vec::new(),
        proofs: Vec::new(),
    }
}

fn with_proof(mut presented: Presented, name: &str, text: String) -> Presented {
    presented.proofs.push((name.to_string(), text));
    presented
}

fn with_evidence(mut presented: Presented, name: &str, text: &str) -> Presented {
    presented.evidence.push((name.to_string(), text.to_string()));
    presented
}

fn presented(user: &str, message: &str) -> Presented {
    with_proof(passed("ntlm", user), AUTHENTICATE_PROOF, message.to_string())
}

/// A user principal name, written either way, as this test's naming rules read it.
fn principal(text: &str) -> Option<String> {
    let (user, domain) = match (text.split_once('@'), text.split_once('\\')) {
        (Some((user, domain)), _) => (user, domain),
        (None, Some((domain, user))) => (user, domain),
        (None, None) => return None,
    };
    Some(format!("{user}@{domain}").to_lowercase())
}

/// What the readers make of a claim.
fn readings(claim: &Presented, client: &ClientChallenge) -> Readings {
    let Ok(asked) = questions(claim) else {
        return Readings {
            message: None,
            value: None,
            evidence: Vec::new(),
            client: Ok(None),
            challenge: Err(String::new()),
        };
    };
    let message = principal(&format!("{}@{}", asked.user, asked.domain));
    let named = |text: &str| {
        principal(text).map(|text| PrincipalName {
            is_message: Some(&text) == message.as_ref(),
            text,
        })
    };
    let challenge = match asked.challenge {
        Some(bytes) if bytes.len() >= 32 => Ok(bytes[24..32].try_into().expect("eight")),
        _ => Err("the CHALLENGE message is truncated".to_string()),
    };
    Readings {
        value: named(&asked.value),
        evidence: asked.evidence.iter().map(|text| named(text)).collect(),
        message,
        client: Ok(Some(client.clone())),
        challenge,
    }
}

fn verify_as(
    gate: &mut Verifier,
    claim: &Presented,
    client: &ClientChallenge,
) -> Result<Verified, AuthenticateError> {
    gate.verify(claim, &readings(claim, client), NOW)
}

fn verify(gate: &mut Verifier, claim: &Presented) -> Result<Verified, AuthenticateError> {
    verify_as(gate, claim, &blob().1)
}

#[test]
fn a_proven_response_is_held_to_the_service_the_node_is() {
    // MS-NLMP 3.2.5.1.2: the target name is the client's own word for which server it meant, and
    // the proof covers it.
    let made = |target: Option<&str>, flags: u32| {
        let (blob, client) = blob_for(NOW.unsigned_abs(), target, flags);
        let message = minted_over("alice", "CORP", "correct horse", CHALLENGE, &blob);
        (message, client)
    };
    let expecting = || node().expecting_target(HERE);

    let (ours, client) = made(Some("HTTP/XMIP.Example"), 0x2);
    let verified = verify_as(&mut expecting(), &presented("alice", &ours), &client)
        .expect("the same service, spelled another way");
    assert_eq!(verified, Verified::Proven);

    let (relayed, client) = made(Some("HTTP/other.example"), 0x2);
    let failure = verify_as(&mut expecting(), &presented("alice", &relayed), &client)
        .expect_err("another server's");
    assert!(failure.message().contains("HTTP/other.example"), "{failure:?}");
    assert!(failure.message().contains("HTTP/xmip.example"), "{failure:?}");

    let (untrusted, client) = made(Some("HTTP/xmip.example"), 0x2 | 0x4);
    let failure = verify_as(&mut expecting(), &presented("alice", &untrusted), &client)
        .expect_err("untrusted");
    assert!(failure.message().contains("untrusted source"), "{failure:?}");

    let (silent, client) = made(None, 0x2);
    let failure = verify_as(&mut expecting(), &presented("alice", &silent), &client)
        .expect_err("no target");
    assert!(failure.message().contains("names no target"), "{failure:?}");
    assert!(verify_as(&mut node(), &presented("alice", &silent), &client).is_ok());
}

#[test]
fn a_proven_response_made_too_long_ago_is_refused_saying_how_long() {
    let (old, client) = blob_for((NOW - 37 * 60 * 60).unsigned_abs(), None, 0);
    let stale = minted_over("alice", "CORP", "correct horse", CHALLENGE, &old);

    let failure =
        verify_as(&mut node(), &presented("alice", &stale), &client).expect_err("stale");
    assert!(failure.message().contains("133200 seconds"), "{failure:?}");

    let mut kept = node().with_lifetime(48 * 60 * 60);
    assert!(verify_as(&mut kept, &presented("alice", &stale), &client).is_ok());
}

/// The three messages of one exchange, as a Windows client makes them: key exchange negotiated, a
/// MIC over all three, bound to `channel`.
struct Spoken {
    negotiate: Vec<u8>,
    challenge: Vec<u8>,
    authenticate: Vec<u8>,
    client: ClientChallenge,
}

impl Spoken {
    fn over(channel: Option<[u8; 16]>) -> Self {
        let mut negotiate = b"NTLMSSP\0".to_vec();
        negotiate.extend_from_slice(&1u32.to_le_bytes());
        negotiate.extend_from_slice(&0xE208_8297u32.to_le_bytes());
        let mut challenge = b"NTLMSSP\0".to_vec();
        challenge.extend_from_slice(&2u32.to_le_bytes());
        challenge.extend_from_slice(&[0u8; 12]);
        challenge.extend_from_slice(&CHALLENGE);
        challenge.extend_from_slice(&[0u8; 8]);

        let (blob, client) = blob_bound(NOW.unsigned_abs(), None, 0x2, channel);
        let key = ntowf_v2(&nt_hash("correct horse"), "alice", "CORP");
        let proof = hmac(&key, &[&CHALLENGE[..], &blob].concat());
        let mut response = proof.to_vec();
        response.extend_from_slice(&blob);

        let base = hmac(&key, &proof);
        let random = [0x55u8; 16];
        let mut authenticate =
            type3_exchanging("alice", "CORP", &response, 0x4000_0000, &rc4(&base, &random));
        let mic = hmac(&random, &[&negotiate[..], &challenge, &authenticate].concat());
        authenticate[72..88].copy_from_slice(&mic);

        Self {
            negotiate,
            challenge,
            authenticate,
            client,
        }
    }

    fn presented(&self) -> Presented {
        let claim = presented("alice", &STANDARD.encode(&self.authenticate));
        let claim = with_proof(claim, NEGOTIATE_PROOF, STANDARD.encode(&self.negotiate));
        with_proof(claim, CHALLENGE_PROOF, STANDARD.encode(&self.challenge))
    }

    fn verified_by(&self, mut gate: Verifier) -> Result<Verified, AuthenticateError> {
        verify_as(&mut gate, &self.presented(), &self.client)
    }
}

#[test]
fn an_exchange_whose_mic_and_channel_hold_is_proven_and_a_changed_message_is_not() {
    let channel = ChannelBindings::tls_server_end_point(&[0xAB; 32]);
    let strict = || {
        node()
            .bound_to_channel(ChannelBindings::tls_server_end_point(&[0xAB; 32]))
            .requiring_integrity()
    };

    let spoken = Spoken::over(Some(channel.hash()));
    let verified = spoken.verified_by(strict()).expect("it all holds");
    assert_eq!(verified, Verified::Proven);

    // Someone in the middle cleared a flag in the first message.
    let mut downgraded = Spoken::over(Some(channel.hash()));
    downgraded.negotiate[12] ^= 0x10;
    let failure = downgraded.verified_by(strict()).expect_err("changed");
    assert!(failure.message().contains("MIC does not verify"), "{failure:?}");

    let mut another = Spoken::over(Some(channel.hash()));
    another.challenge[24] ^= 0xFF;
    let failure = another.verified_by(strict()).expect_err("another");
    assert!(failure.message().contains("not the one"), "{failure:?}");
}

#[test]
fn a_response_bound_to_another_channel_or_to_none_is_refused_where_the_node_is_bound() {
    let bound = || node().bound_to_channel(ChannelBindings::tls_server_end_point(&[1; 32]));
    let elsewhere = ChannelBindings::tls_server_end_point(&[2; 32]);

    let relayed = Spoken::over(Some(elsewhere.hash()));
    let failure = relayed.verified_by(bound()).expect_err("relayed");
    assert!(failure.message().contains("another channel"), "{failure:?}");

    let unbound = Spoken::over(None);
    let failure = unbound.verified_by(bound()).expect_err("unbound");
    assert!(failure.message().contains("bound to none"), "{failure:?}");
    assert!(unbound.verified_by(node()).is_ok());
}

#[test]
fn a_mic_that_cannot_be_checked_is_refused_only_where_the_node_requires_one() {
    let spoken = Spoken::over(None);
    let alone = presented("alice", &STANDARD.encode(&spoken.authenticate));

    assert!(verify_as(&mut node(), &alone, &spoken.client).is_ok());
    let failure = verify_as(&mut node().requiring_integrity(), &alone, &spoken.client)
        .expect_err("unchecked");
    assert!(failure.message().contains("ntlm.negotiate"), "{failure:?}");

    let silent = minted("alice", "CORP", "correct horse", CHALLENGE);
    let failure = verify(&mut node().requiring_integrity(), &presented("alice", &silent))
        .expect_err("no MIC");
    assert!(failure.message().contains("carries none"), "{failure:?}");
}

#[test]
fn the_nt_hash_of_a_known_password_is_the_published_one() {
    // MS-NLMP 4.2.1: the password "Password" hashes to this.
    assert_eq!(
        hex(&nt_hash("Password")),
        "a4f49c406510bdcab6824ee7c30fd852"
    );
    // MS-NLMP 4.2.4.1.1: NTOWFv2 for User, Domain, Password.
    assert_eq!(
        hex(&ntowf_v2(&nt_hash("Password"), "User", "Domain")),
        "0c868a403bfd7a93a3001ef22ef02e3f"
    );
}

#[test]
fn a_response_made_with_the_right_password_is_proven_and_spends_the_challenge() {
    let mut gate = node();
    let message = minted("alice", "CORP", "correct horse", CHALLENGE);

    let verified = verify(&mut gate, &presented("alice", &message)).expect("proven");
    let replayed = verify(&mut gate, &presented("alice", &message)).expect_err("spent");

    assert_eq!(verified, Verified::Proven);
    assert!(replayed.message().contains("no server challenge outstanding"));
}

#[test]
fn a_response_made_with_another_password_is_refused_and_the_challenge_stays() {
    let mut gate = node();
    let wrong = minted("alice", "CORP", "wrong horse", CHALLENGE);
    let right = minted("alice", "CORP", "correct horse", CHALLENGE);

    let failure = verify(&mut gate, &presented("alice", &wrong)).expect_err("refused");

    assert!(failure.message().contains("does not prove"));
    assert!(verify(&mut gate, &presented("alice", &right)).is_ok());
}

#[test]
fn a_response_to_a_challenge_the_node_never_issued_is_refused() {
    let message = minted("alice", "CORP", "correct horse", [9; 8]);

    let failure = verify(&mut node(), &presented("alice", &message)).expect_err("refused");

    assert!(failure.message().contains("does not prove"));
}

#[test]
fn a_user_the_node_holds_no_hash_for_is_refused_by_name() {
    let message = minted("mallory", "CORP", "correct horse", CHALLENGE);

    let failure = verify(&mut node(), &presented("mallory", &message)).expect_err("refused");

    assert!(failure.message().contains("no NT hash for 'mallory'"));
}

#[test]
fn a_claim_that_is_not_the_messages_user_is_refused() {
    let message = minted("alice", "CORP", "correct horse", CHALLENGE);

    let failure = verify(&mut node(), &presented("bob", &message)).expect_err("refused");

    assert!(failure.message().contains("not the claimed value"));
}

#[test]
fn a_claim_by_user_principal_name_is_the_account_the_message_names_by_user_and_domain() {
    for claim in ["alice@corp", "CORP\\Alice"] {
        let mut gate = node();
        let message = minted("alice", "CORP", "correct horse", CHALLENGE);
        let verified = verify(&mut gate, &presented(claim, &message)).expect("proven");
        assert_eq!(verified, Verified::Proven, "{claim}");
    }
    // A claim as it is first filed: the user as the value, the name as evidence.
    let message = minted("alice", "CORP", "correct horse", CHALLENGE);
    let filed = with_evidence(presented("alice", &message), USER_EVIDENCE, "alice@corp");
    assert_eq!(
        verify(&mut node(), &filed).expect("proven"),
        Verified::Proven
    );
}

#[test]
fn a_claim_of_another_account_than_the_message_names_is_refused_naming_both() {
    let message = minted("alice", "CORP", "correct horse", CHALLENGE);
    let elsewhere = presented("alice@other", &message);
    let filed = with_evidence(presented("alice", &message), USER_EVIDENCE, "bob@corp");

    for (claim, other) in [(elsewhere, "'alice@other'"), (filed, "'bob@corp'")] {
        let failure = verify(&mut node(), &claim).expect_err("refused");
        assert!(
            failure.message().contains("'alice@corp'") && failure.message().contains(other),
            "{}",
            failure.message()
        );
    }
}

#[test]
fn another_mechanism_and_a_missing_proof_are_each_refused_by_name() {
    let other = passed("kerberos", "alice");
    let bare = passed("ntlm", "alice");

    let not_ours = verify(&mut node(), &other).expect_err("refused");
    let missing = verify(&mut node(), &bare).expect_err("refused");

    assert!(not_ours.message().contains("'kerberos' was presented"));
    assert!(missing.message().contains("ntlm.authenticate"));
}

#[test]
fn the_gate_verifies_ntlm() {
    assert_eq!(node().mechanism(), "ntlm");
    assert_eq!(MECHANISM, "ntlm");
    assert_eq!(LIFETIME, 129_600);
}

#[test]
fn a_message_in_white_space_is_read_and_one_that_is_not_base64_is_refused() {
    let message = minted("alice", "CORP", "correct horse", CHALLENGE);
    let padded = format!("\r\n {message}\t");
    assert!(verify(&mut node(), &presented("alice", &padded)).is_ok());

    let inner = format!("{} {}", &message[..8], &message[8..]);
    for text in ["AA==A", "AA", "AB==", "A", "=", "AAA\u{e9}", inner.as_str()] {
        let failure = verify(&mut node(), &presented("alice", text)).expect_err("refused");
        assert_eq!(failure.message(), "the NTLM message is not base64", "{text}");
    }
    let empty = verify(&mut node(), &presented("alice", "")).expect_err("no message");
    assert_eq!(empty.message(), "the NTLM message has no NTLMSSP signature");
}

#[test]
fn a_proof_is_read_from_base64_where_it_is_presented() {
    let claim = with_proof(passed("ntlm", "alice"), NEGOTIATE_PROOF, " AQID+/8= ".to_string());
    assert_eq!(decoded(&claim, NEGOTIATE_PROOF), Ok(Some(vec![1, 2, 3, 0xFB, 0xFF])));
    assert_eq!(decoded(&claim, CHALLENGE_PROOF), Ok(None));

    let torn = with_proof(claim, CHALLENGE_PROOF, "?".to_string());
    let failure = decoded(&torn, CHALLENGE_PROOF).expect_err("not base64");
    assert_eq!(failure.message(), "the ntlm.challenge proof is not base64");
}

#[test]
fn a_message_before_the_response_that_is_not_base64_is_refused_by_its_name() {
    for name in [NEGOTIATE_PROOF, CHALLENGE_PROOF] {
        let message = minted("alice", "CORP", "correct horse", CHALLENGE);
        let claim = with_proof(presented("alice", &message), name, "not base64".to_string());
        let failure = verify(&mut node(), &claim).expect_err("refused");
        assert_eq!(failure.message(), format!("the {name} proof is not base64"));
    }
}

#[test]
fn the_first_proof_of_a_name_is_the_proof() {
    let message = minted("alice", "CORP", "correct horse", CHALLENGE);
    let claim = with_proof(
        presented("alice", &message),
        AUTHENTICATE_PROOF,
        "not base64".to_string(),
    );
    assert!(verify(&mut node(), &claim).is_ok());
}

#[test]
fn a_response_is_taken_up_to_the_lifetime_either_side_of_the_clock() {
    for (made, taken) in [
        (NOW - 129_600, true),
        (NOW - 129_601, false),
        (NOW + 129_600, true),
        (NOW + 129_601, false),
    ] {
        let (blob, client) = blob_for(made.unsigned_abs(), None, 0);
        let message = minted_over("alice", "CORP", "correct horse", CHALLENGE, &blob);
        let found = verify_as(&mut node(), &presented("alice", &message), &client);
        assert_eq!(found.is_ok(), taken, "{made}");
        if !taken {
            assert_eq!(
                found.expect_err("too far off").message(),
                "the response was made 129601 seconds from the node's clock, and the node takes \
                 none further off than 129600"
            );
        }
    }
}

#[test]
fn a_time_beyond_the_clocks_type_is_far_off() {
    let (blob, mut client) = blob();
    let message = minted_over("alice", "CORP", "correct horse", CHALLENGE, &blob);
    client.made_at = u64::MAX;
    let claim = presented("alice", &message);
    let failure = node()
        .verify(&claim, &readings(&claim, &client), i64::MIN)
        .expect_err("far off");
    assert_eq!(
        failure,
        AuthenticateError::TooFarOff {
            apart: u64::MAX,
            lifetime: LIFETIME
        }
    );
}

#[test]
fn a_refusal_after_the_proof_spends_the_challenge() {
    let mut gate = node();
    let (old, client) = blob_for((NOW - 37 * 60 * 60).unsigned_abs(), None, 0);
    let stale = minted_over("alice", "CORP", "correct horse", CHALLENGE, &old);
    assert!(verify_as(&mut gate, &presented("alice", &stale), &client).is_err());

    let fresh = minted("alice", "CORP", "correct horse", CHALLENGE);
    let failure = verify(&mut gate, &presented("alice", &fresh)).expect_err("spent");
    assert_eq!(failure, AuthenticateError::NoChallenge);
}

#[test]
fn only_the_challenge_answered_is_spent() {
    let mut gate = node();
    gate.issued([9; 8]);
    let second = minted("alice", "CORP", "correct horse", [9; 8]);
    let first = minted("alice", "CORP", "correct horse", CHALLENGE);

    assert!(verify(&mut gate, &presented("alice", &second)).is_ok());
    assert_eq!(
        verify(&mut gate, &presented("alice", &second)),
        Err(AuthenticateError::NotProven)
    );
    assert!(verify(&mut gate, &presented("alice", &first)).is_ok());
}

#[test]
fn the_oldest_challenge_is_forgotten_when_too_many_are_outstanding() {
    let mut gate = node();
    let first = minted("alice", "CORP", "correct horse", CHALLENGE);
    for count in 1..OUTSTANDING as u64 {
        gate.issued((count + 0x100_0000).to_le_bytes());
    }
    assert!(verify(&mut gate, &presented("alice", &first)).is_ok());

    let mut gate = node();
    for count in 0..OUTSTANDING as u64 {
        gate.issued((count + 0x100_0000).to_le_bytes());
    }
    assert_eq!(
        verify(&mut gate, &presented("alice", &first)),
        Err(AuthenticateError::NotProven)
    );
    let oldest = minted("alice", "CORP", "correct horse", 0x100_0000u64.to_le_bytes());
    assert!(verify(&mut gate, &presented("alice", &oldest)).is_ok());
}

#[test]
fn a_blob_without_a_client_challenge_is_proven_only_where_nothing_is_held_to_it() {
    let message = minted("alice", "CORP", "correct horse", CHALLENGE);
    let claim = presented("alice", &message);
    let mut silent = readings(&claim, &blob().1);
    silent.client = Ok(None);
    let channel = || ChannelBindings::of_application_data(b"here");

    assert_eq!(
        node().with_lifetime(0).verify(&claim, &silent, 0),
        Ok(Verified::Proven)
    );

    let mut strict = node()
        .expecting_target(HERE)
        .bound_to_channel(channel())
        .requiring_integrity();
    let failure = strict.verify(&claim, &silent, NOW).expect_err("no target");
    assert_eq!(
        failure.message(),
        "the node expects the target 'HTTP/xmip.example' and the response names no target"
    );
    assert_eq!(
        strict.verify(&claim, &silent, NOW),
        Err(AuthenticateError::NoChallenge),
        "the challenge is spent all the same"
    );

    assert_eq!(
        node()
            .bound_to_channel(channel())
            .requiring_integrity()
            .verify(&claim, &silent, NOW),
        Err(AuthenticateError::NoChannel)
    );
    assert_eq!(
        node().bound_to_channel(channel()).verify(&claim, &silent, NOW),
        Err(AuthenticateError::NoChannel)
    );
    assert_eq!(
        node().requiring_integrity().verify(&claim, &silent, NOW),
        Err(AuthenticateError::NoMic)
    );
}

#[test]
fn a_blob_that_is_not_read_is_refused_in_its_readers_words() {
    let message = minted("alice", "CORP", "correct horse", CHALLENGE);
    let claim = presented("alice", &message);
    let mut torn = readings(&claim, &blob().1);
    torn.client = Err("the attribute pairs run past the blob".to_string());
    let failure = node().verify(&claim, &torn, NOW).expect_err("torn");
    assert_eq!(failure.message(), "the attribute pairs run past the blob");
}

#[test]
fn a_challenge_message_that_is_not_read_is_refused_in_its_readers_words() {
    let mut spoken = Spoken::over(None);
    spoken.challenge.truncate(20);
    let failure = spoken.verified_by(node()).expect_err("truncated");
    assert_eq!(failure.message(), "the CHALLENGE message is truncated");
}

#[test]
fn an_account_in_no_domain_is_held_for_any_and_the_first_that_matches_is_taken() {
    let wrong = Account::from_hex("ALICE", &hex(&nt_hash("another"))).expect("hex");
    let right = Account::from_hex("Alice", &hex(&nt_hash("correct horse"))).expect("hex");
    let message = minted("alice", "CORP", "correct horse", CHALLENGE);
    let claim = presented("alice", &message);
    let held = |accounts: Vec<Account>| {
        let mut gate = Verifier::new(accounts);
        gate.issued(CHALLENGE);
        verify(&mut gate, &claim)
    };

    assert!(held(vec![right.clone()]).is_ok());
    assert!(held(vec![right.clone(), wrong.clone()]).is_ok());
    assert_eq!(
        held(vec![wrong.clone(), right.clone()]),
        Err(AuthenticateError::NotProven)
    );
    assert!(held(vec![wrong.in_domain("elsewhere"), right.clone()]).is_ok());
    let failure = held(vec![right.in_domain("elsewhere")]).expect_err("elsewhere");
    assert_eq!(
        failure.message(),
        "the node holds no NT hash for 'alice' in domain 'CORP'"
    );
}

#[test]
fn the_users_case_does_not_enter_the_key_and_the_domains_does() {
    let hash = nt_hash("Password");

    assert_eq!(ntowf_v2(&hash, "USER", "Domain"), ntowf_v2(&hash, "user", "Domain"));
    assert_ne!(ntowf_v2(&hash, "USER", "DOMAIN"), ntowf_v2(&hash, "USER", "Domain"));
    assert_eq!(
        ntowf_v2(&hash, "stra\u{df}e\u{1F600}", "d"),
        hmac(&hash, &utf16("STRASSE\u{1F600}d"))
    );
}

#[test]
fn a_claim_without_principal_names_is_the_user_as_written() {
    let message = minted("alice", "CORP", "correct horse", CHALLENGE);
    let claim = with_evidence(presented("alice", &message), USER_EVIDENCE, "bob@corp");
    let mut bare = readings(&claim, &blob().1);
    bare.message = None;
    assert!(node().verify(&claim, &bare, NOW).is_ok());

    let shouted = presented("ALICE", &message);
    let mut bare = readings(&shouted, &blob().1);
    bare.message = None;
    assert_eq!(
        node().verify(&shouted, &bare, NOW),
        Err(AuthenticateError::AnotherUser)
    );
}

#[test]
fn evidence_that_was_not_filed_is_not_held_against_a_claim() {
    let message = minted("alice", "CORP", "correct horse", CHALLENGE);
    let claim = with_evidence(presented("alice", &message), "principal.host", "bob@corp");
    let read: Authenticate = open(&claim).expect("open").read;
    let mut readings = readings(&claim, &blob().1);
    readings.evidence = vec![Some(PrincipalName {
        text: "bob@corp".to_string(),
        is_message: false,
    })];
    assert_eq!(claimed_by(&read, &claim, &readings), Ok(()));
    let filed = with_evidence(claim, USER_EVIDENCE, "bob@corp");
    assert_eq!(
        claimed_by(&read, &filed, &readings).expect_err("filed").message(),
        "the type 3 message names 'alice@corp' and the claim names 'bob@corp': another account"
    );
}

#[test]
fn every_piece_of_filed_evidence_is_held_to_the_messages_account() {
    let message = minted("alice", "CORP", "correct horse", CHALLENGE);
    let filing = |names: &[&str]| {
        names.iter().fold(presented("alice", &message), |claim, name| {
            with_evidence(claim, USER_EVIDENCE, name)
        })
    };

    let failure = verify(&mut node(), &filing(&["alice@corp", "bob@corp"])).expect_err("bob");
    assert_eq!(
        failure.message(),
        "the type 3 message names 'alice@corp' and the claim names 'bob@corp': another account"
    );
    let failure = verify(&mut node(), &filing(&["alice", "carol@corp", "bob@corp"]));
    assert!(failure.expect_err("carol").message().contains("'carol@corp'"));
    assert!(verify(&mut node(), &filing(&["alice@corp", "bob", "CORP\\Alice"])).is_ok());
}

#[test]
fn what_is_to_be_read_of_a_claim_is_what_it_presents() {
    let message = minted("alice", "CORP", "correct horse", CHALLENGE);
    let claim = with_evidence(presented("alice@corp", &message), USER_EVIDENCE, "bob@corp");
    let claim = with_evidence(claim, "principal.host", "host/corp");
    let claim = with_evidence(claim, USER_EVIDENCE, "carol@corp");
    let asked = questions(&with_proof(claim.clone(), CHALLENGE_PROOF, " AQID ".to_string()));
    let asked = asked.expect("a message");

    assert_eq!(asked.user, "alice");
    assert_eq!(asked.domain, "CORP");
    assert_eq!(asked.value, "alice@corp");
    assert_eq!(asked.evidence, ["bob@corp", "carol@corp"]);
    assert_eq!(asked.blob, blob().0);
    assert_eq!(asked.challenge, Some(vec![1, 2, 3]));

    let torn = with_proof(claim, CHALLENGE_PROOF, "?".to_string());
    assert_eq!(questions(&torn).expect("a message").challenge, None);
    let refused = questions(&passed("ntlm", "alice")).expect_err("no message");
    assert_eq!(refused, AuthenticateError::NoMessage);
}

#[test]
fn a_response_replayed_after_other_challenges_were_issued_and_answered_is_refused() {
    let mut gate = node();
    let message = minted("alice", "CORP", "correct horse", CHALLENGE);
    assert!(verify(&mut gate, &presented("alice", &message)).is_ok());

    gate.issued([2; 8]);
    gate.issued([3; 8]);
    assert_eq!(
        verify(&mut gate, &presented("alice", &message)),
        Err(AuthenticateError::NotProven)
    );
    let other = minted("alice", "CORP", "correct horse", [2; 8]);
    assert!(verify(&mut gate, &presented("alice", &other)).is_ok());
    let wrong = minted("alice", "CORP", "wrong horse", [3; 8]);
    assert!(verify(&mut gate, &presented("alice", &wrong)).is_err());
    assert_eq!(
        verify(&mut gate, &presented("alice", &message)),
        Err(AuthenticateError::NotProven)
    );
    let last = minted("alice", "CORP", "correct horse", [3; 8]);
    assert!(verify(&mut gate, &presented("alice", &last)).is_ok());
    assert_eq!(
        verify(&mut gate, &presented("alice", &message)),
        Err(AuthenticateError::NoChallenge)
    );
    gate.issued(CHALLENGE);
    assert!(verify(&mut gate, &presented("alice", &message)).is_ok());
}
