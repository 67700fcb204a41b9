use authenticate_ntlm::binding::session_key;
use authenticate_ntlm::message::NEGOTIATE_KEY_EXCH;
use authenticate_ntlm::rc4::rc4;
use authenticate_ntlm::{
    Authenticate, AuthenticateError, Binding, ChannelBindings, ClientChallenge, Exchange,
};
use hmac::{Hmac, Mac};
use md5::{Digest, Md5};

fn hmac(key: &[u8], message: &[u8]) -> [u8; 16] {
    let mut mac = <Hmac<Md5> as Mac>::new_from_slice(key).expect("a key");
    mac.update(message);
    mac.finalize().into_bytes().into()
}

#[test]
fn rc4_is_the_keystream_rfc_6229_gives_for_a_forty_bit_key() {
    let stream = rc4(&[1, 2, 3, 4, 5], &[0u8; 8]);

    assert_eq!(stream, [0xb2, 0x39, 0x63, 0x05, 0xf0, 0x3d, 0xc0, 0x27]);
}

#[test]
fn rc4_opens_what_it_closed_and_leaves_nothing_where_nothing_is() {
    let data: Vec<u8> = (0..=255).chain(0..=255).collect();
    let closed = rc4(&[1, 2, 3, 4, 5], &data);

    assert_ne!(closed, data);
    assert_eq!(rc4(&[1, 2, 3, 4, 5], &closed), data);
    assert_eq!(rc4(&[1], &[]), Vec::<u8>::new());
}

#[test]
fn rc4_of_plaintext_under_key_is_the_published_one() {
    assert_eq!(
        rc4(b"Key", b"Plaintext"),
        [0xBB, 0xF3, 0x16, 0xE8, 0xD9, 0x40, 0xAF, 0x0A, 0xD3]
    );
}

#[test]
fn the_session_key_is_the_one_ms_nlmp_4_2_4_works_through() {
    // User "User", domain "Domain", password "Password": section 4.2.4.
    let response_key = [
        0x0c, 0x86, 0x8a, 0x40, 0x3b, 0xfd, 0x7a, 0x93, 0xa3, 0x00, 0x1e, 0xf2, 0x2e, 0xf0,
        0x2e, 0x3f,
    ];
    let proof = [
        0x68, 0xcd, 0x0a, 0xb8, 0x51, 0xe5, 0x1c, 0x96, 0xaa, 0xbc, 0x92, 0x7b, 0xeb, 0xef,
        0x6a, 0x1c,
    ];
    let base = [
        0x8d, 0xe4, 0x0c, 0xca, 0xdb, 0xc1, 0x4a, 0x82, 0xf1, 0x5c, 0xb0, 0xad, 0x0d, 0xe9,
        0x5c, 0xa3,
    ];
    let encrypted = vec![
        0xc5, 0xda, 0xd2, 0x54, 0x4f, 0xc9, 0x79, 0x90, 0x94, 0xce, 0x1c, 0xe9, 0x0b, 0xc9,
        0xd0, 0x3e,
    ];
    let mut read = Authenticate {
        user: "User".to_string(),
        domain: "Domain".to_string(),
        proof,
        blob: Vec::new(),
        flags: 0,
        session_key: Vec::new(),
    };

    assert_eq!(
        session_key(&response_key, &proof, &read).expect("a key"),
        base
    );

    read.flags = NEGOTIATE_KEY_EXCH;
    read.session_key = encrypted;
    assert_eq!(
        session_key(&response_key, &proof, &read).expect("a key"),
        [0x55; 16]
    );

    read.session_key.truncate(8);
    let failure = session_key(&response_key, &proof, &read).expect_err("short");
    assert!(failure.message().contains("sixteen bytes"), "{failure:?}");
}

#[test]
fn a_channel_is_the_md5_of_empty_addresses_and_the_application_data() {
    let bound = ChannelBindings::tls_server_end_point(&[0xAB; 32]);
    let mut structure = vec![0u8; 16];
    structure.extend_from_slice(&53u32.to_le_bytes());
    structure.extend_from_slice(b"tls-server-end-point:");
    structure.extend_from_slice(&[0xAB; 32]);
    let expected: [u8; 16] = Md5::digest(&structure).into();

    assert_eq!(bound.hash(), expected);
    assert_ne!(
        bound,
        ChannelBindings::tls_server_end_point(&[0xAC; 32]),
        "another certificate is another channel"
    );
}

#[test]
fn a_channel_by_its_application_data_states_its_length() {
    let mut structure = vec![0u8; 16];
    structure.extend_from_slice(&[3, 0, 0, 0]);
    structure.extend_from_slice(b"abc");
    let expected: [u8; 16] = Md5::digest(&structure).into();

    assert_eq!(ChannelBindings::of_application_data(b"abc").hash(), expected);
}

#[test]
fn a_binding_holds_to_nothing_unless_it_is_told_to() {
    let binding = Binding::default();

    assert!(binding.channel.is_none());
    assert!(!binding.integrity);
}

fn message() -> Authenticate {
    Authenticate {
        user: "User".to_string(),
        domain: "Domain".to_string(),
        proof: [3; 16],
        blob: Vec::new(),
        flags: 0,
        session_key: Vec::new(),
    }
}

fn client(integrity: bool, channel: Option<[u8; 16]>) -> ClientChallenge {
    ClientChallenge {
        made_at: 0,
        target: None,
        untrusted: false,
        integrity,
        channel,
    }
}

/// An exchange whose MIC is the one its session key makes.
fn sealed(length: usize) -> Vec<u8> {
    let mut authenticate = vec![0x44u8; length];
    authenticate[72..88].fill(0);
    let key = hmac(&[9; 16], &[3; 16]);
    let mut covered = b"negotiate".to_vec();
    covered.extend_from_slice(b"challenge");
    covered.extend_from_slice(&authenticate);
    authenticate[72..88].copy_from_slice(&hmac(&key, &covered));
    authenticate
}

fn checked(
    binding: &Binding,
    client: &ClientChallenge,
    negotiate: Option<&[u8]>,
    challenge: Option<&[u8]>,
    announced: Result<[u8; 8], String>,
    authenticate: &[u8],
) -> Result<(), AuthenticateError> {
    binding.check(
        client,
        &Exchange {
            negotiate,
            challenge,
            announced: &announced,
            authenticate,
            read: &message(),
            response_key: &[9; 16],
            server_challenge: [1, 2, 3, 4, 5, 6, 7, 8],
        },
    )
}

#[test]
fn a_sealed_exchange_holds_and_every_byte_but_the_mic_is_covered() {
    let binding = Binding {
        channel: None,
        integrity: true,
    };
    let announced = || Ok([1, 2, 3, 4, 5, 6, 7, 8]);
    let over = |authenticate: &[u8], negotiate: &[u8], challenge: &[u8]| {
        checked(
            &binding,
            &client(true, None),
            Some(negotiate),
            Some(challenge),
            announced(),
            authenticate,
        )
    };
    let whole = sealed(100);

    assert_eq!(over(&whole, b"negotiate", b"challenge"), Ok(()));
    assert_eq!(over(&sealed(88), b"negotiate", b"challenge"), Ok(()));
    for at in 0..100 {
        let mut changed = whole.clone();
        changed[at] ^= 1;
        assert_eq!(
            over(&changed, b"negotiate", b"challenge"),
            Err(AuthenticateError::MicMismatch),
            "{at}"
        );
    }
    assert_eq!(
        over(&whole, b"Negotiate", b"challenge"),
        Err(AuthenticateError::MicMismatch)
    );
    assert_eq!(
        over(&whole[..87], b"negotiate", b"challenge"),
        Err(AuthenticateError::TooShortForMic)
    );
}

#[test]
fn an_exchange_is_refused_naming_what_did_not_hold() {
    let strict = Binding {
        channel: Some(ChannelBindings::of_application_data(b"here")),
        integrity: true,
    };
    let here = ChannelBindings::of_application_data(b"here").hash();
    let there = ChannelBindings::of_application_data(b"there").hash();
    let whole = sealed(100);
    let answered: Result<[u8; 8], String> = Ok([1, 2, 3, 4, 5, 6, 7, 8]);
    let both = |client: &ClientChallenge, announced: Result<[u8; 8], String>| {
        checked(
            &strict,
            client,
            Some(b"negotiate"),
            Some(b"challenge"),
            announced,
            &whole,
        )
    };

    assert_eq!(both(&client(true, Some(here)), answered.clone()), Ok(()));
    assert_eq!(
        both(&client(true, Some(there)), answered.clone()),
        Err(AuthenticateError::AnotherChannel)
    );
    assert_eq!(
        both(&client(true, None), answered.clone()),
        Err(AuthenticateError::NoChannel)
    );
    assert_eq!(
        both(&client(false, Some(here)), answered.clone()),
        Err(AuthenticateError::NoMic)
    );
    assert_eq!(
        both(&client(true, Some(here)), Ok([0; 8])),
        Err(AuthenticateError::AnotherChallenge)
    );
    let unread = both(&client(true, Some(here)), Err("no CHALLENGE".to_string()));
    assert_eq!(unread.expect_err("unread").message(), "no CHALLENGE");
    for (negotiate, challenge) in [(None, Some(&b"challenge"[..])), (Some(&b"negotiate"[..]), None)] {
        assert_eq!(
            checked(
                &strict,
                &client(true, Some(here)),
                negotiate,
                challenge,
                answered.clone(),
                &whole
            ),
            Err(AuthenticateError::MicUncheckable)
        );
        assert_eq!(
            checked(
                &Binding::default(),
                &client(true, Some(there)),
                negotiate,
                challenge,
                answered.clone(),
                &whole
            ),
            Ok(())
        );
    }
    assert_eq!(
        checked(&Binding::default(), &client(false, None), None, None, Ok([0; 8]), &[]),
        Ok(())
    );
}

#[test]
fn key_exchange_with_a_key_of_another_length_is_refused() {
    let mut read = message();
    read.flags = NEGOTIATE_KEY_EXCH;
    for length in [0, 15, 17] {
        read.session_key = vec![0; length];
        assert_eq!(
            session_key(&[9; 16], &[3; 16], &read),
            Err(AuthenticateError::SessionKeyLength)
        );
    }
}
