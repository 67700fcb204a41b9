use authenticate_ntlm::message::NEGOTIATE_UNICODE;
use authenticate_ntlm::Authenticate;

const SIGNATURE: &[u8] = b"NTLMSSP\0";

fn utf16(text: &str) -> Vec<u8> {
    text.encode_utf16().flat_map(u16::to_le_bytes).collect()
}

/// A type 3 with these flags and payloads: MS-NLMP 2.2.1.3.
fn laid_out(flags: u32, payloads: &[Vec<u8>; 6]) -> Vec<u8> {
    let mut message = SIGNATURE.to_vec();
    message.extend_from_slice(&3u32.to_le_bytes());
    let mut offset = 64u32;
    for payload in payloads {
        let length = u16::try_from(payload.len()).expect("a short field");
        message.extend_from_slice(&length.to_le_bytes());
        message.extend_from_slice(&length.to_le_bytes());
        message.extend_from_slice(&offset.to_le_bytes());
        offset += u32::from(length);
    }
    message.extend_from_slice(&flags.to_le_bytes());
    for payload in payloads {
        message.extend_from_slice(payload);
    }
    message
}

/// A Unicode type 3 with the given NT response.
fn type3(user: &str, domain: &str, response: &[u8]) -> Vec<u8> {
    laid_out(
        NEGOTIATE_UNICODE,
        &[
            vec![0; 24],
            response.to_vec(),
            utf16(domain),
            utf16(user),
            utf16("WORKSTATION"),
            Vec::new(),
        ],
    )
}

fn blob() -> Vec<u8> {
    let mut blob = vec![1, 1, 0, 0, 0, 0, 0, 0];
    blob.extend_from_slice(&[0x11; 8]);
    blob.extend_from_slice(&[0xaa; 8]);
    blob.extend_from_slice(&[0; 8]);
    blob
}

fn response() -> Vec<u8> {
    let mut response = vec![7u8; 16];
    response.extend_from_slice(&blob());
    response
}

#[test]
fn a_type_3_is_read_into_its_names_its_proof_and_its_blob() {
    let mut response = vec![7u8; 16];
    response.extend_from_slice(&blob());

    let read = Authenticate::parse(&type3("alice", "CORP", &response)).expect("read");

    assert_eq!(read.user, "alice");
    assert_eq!(read.domain, "CORP");
    assert_eq!(read.proof, [7u8; 16]);
    assert_eq!(read.blob, blob());
}

#[test]
fn an_ntlmv1_response_is_refused_by_name() {
    let failure = Authenticate::parse(&type3("alice", "CORP", &[0; 24])).expect_err("v1");

    assert!(failure.message().contains("NTLMv1"));
}

#[test]
fn a_challenge_message_is_not_an_authenticate() {
    let mut message = SIGNATURE.to_vec();
    message.extend_from_slice(&2u32.to_le_bytes());

    let failure = Authenticate::parse(&message).expect_err("type 2");

    assert!(failure.message().contains("type 3"));
}

#[test]
fn a_field_pointing_outside_the_message_is_refused_by_its_name() {
    let mut message = type3("alice", "CORP", &[0; 44]);
    message.truncate(70);

    let failure = Authenticate::parse(&message).expect_err("truncated");

    assert!(failure.message().contains("points outside"));
    assert_eq!(
        failure.message(),
        "the NTLM AUTHENTICATE message's NtChallengeResponse points outside the message"
    );
}

#[test]
fn a_type_3_is_read_into_its_flags_and_its_session_key() {
    let payloads = [
        vec![0; 24],
        response(),
        utf16("CORP"),
        utf16("alice"),
        utf16("WORKSTATION"),
        vec![9; 16],
    ];
    let read = Authenticate::parse(&laid_out(0x4000_0001, &payloads)).expect("read");

    assert_eq!(read.flags, 0x4000_0001);
    assert_eq!(read.session_key, vec![9; 16]);
    let none = Authenticate::parse(&type3("alice", "CORP", &response())).expect("read");
    assert_eq!(none.session_key, Vec::<u8>::new());
}

#[test]
fn a_session_key_that_lies_outside_is_none() {
    let mut message = type3("alice", "CORP", &response());
    message[56..60].copy_from_slice(&u32::MAX.to_le_bytes());

    let read = Authenticate::parse(&message).expect("read");
    assert_eq!(read.session_key, Vec::<u8>::new());
    assert_eq!(read.user, "alice");
}

#[test]
fn names_beyond_the_first_plane_are_read() {
    let read = Authenticate::parse(&type3("zo\u{eb}\u{1F600}", "\u{4e2d}", &response()));
    let read = read.expect("read");

    assert_eq!(read.user, "zo\u{eb}\u{1F600}");
    assert_eq!(read.domain, "\u{4e2d}");
}

#[test]
fn names_that_are_not_unicode_are_a_character_a_byte() {
    let payloads = [
        Vec::new(),
        response(),
        b"CORP".to_vec(),
        vec![b'z', b'o', 0xEB],
        Vec::new(),
        Vec::new(),
    ];
    let read = Authenticate::parse(&laid_out(0, &payloads)).expect("read");

    assert_eq!(read.user, "zo\u{eb}");
    assert_eq!(read.domain, "CORP");
}

#[test]
fn an_odd_last_byte_of_a_unicode_name_is_left_out() {
    let mut user = utf16("al");
    user.push(0x41);
    let payloads =
        [Vec::new(), response(), utf16("CORP"), user, Vec::new(), Vec::new()];
    let read = Authenticate::parse(&laid_out(1, &payloads)).expect("read");

    assert_eq!(read.user, "al");
}

#[test]
fn a_name_that_is_not_utf16_is_refused_by_its_field() {
    let lone = vec![0x00, 0xD8];
    let payloads = [
        Vec::new(),
        response(),
        utf16("CORP"),
        lone.clone(),
        Vec::new(),
        Vec::new(),
    ];
    let failure = Authenticate::parse(&laid_out(1, &payloads)).expect_err("a lone surrogate");
    assert_eq!(failure.message(), "the NTLM UserName is not UTF-16");

    let payloads = [Vec::new(), response(), lone, utf16("alice"), Vec::new(), Vec::new()];
    let failure = Authenticate::parse(&laid_out(1, &payloads)).expect_err("a lone surrogate");
    assert_eq!(failure.message(), "the NTLM DomainName is not UTF-16");
}

#[test]
fn bytes_that_are_no_ntlm_message_are_refused() {
    for bytes in [&b""[..], b"NTLMSSP", b"NTLMSSX\0\x03\0\0\0"] {
        let failure = Authenticate::parse(bytes).expect_err("no message");
        assert_eq!(failure.message(), "the NTLM message has no NTLMSSP signature");
    }
}

#[test]
fn a_message_that_ends_before_its_flags_is_refused() {
    let whole = type3("alice", "CORP", &response());
    let failure = Authenticate::parse(&whole[..63]).expect_err("truncated");
    assert_eq!(
        failure.message(),
        "the NTLM AUTHENTICATE message is truncated before its flags"
    );
    let failure = Authenticate::parse(&whole[..11]).expect_err("truncated");
    assert_eq!(
        failure.message(),
        "the NTLM message is not an AUTHENTICATE (type 3) message"
    );
}

#[test]
fn a_response_too_short_for_ntlmv2_and_a_blob_that_is_none_are_refused() {
    let failure = Authenticate::parse(&type3("alice", "CORP", &[0; 15])).expect_err("short");
    assert_eq!(
        failure.message(),
        "the NTLM AUTHENTICATE message carries no NTLMv2 response"
    );

    let mut headless = response();
    headless[17] = 2;
    let mut short = response();
    short.truncate(16 + 27);
    for response in [headless, short] {
        let failure = Authenticate::parse(&type3("alice", "CORP", &response)).expect_err("none");
        assert_eq!(
            failure.message(),
            "the NT response's blob is not an NTLMv2 client challenge"
        );
    }
    let mut least = response();
    least.truncate(16 + 28);
    assert!(Authenticate::parse(&type3("alice", "CORP", &least)).is_ok());
}

#[test]
fn a_mic_is_sixteen_bytes_at_seventy_two() {
    let bytes: Vec<u8> = (0..100).collect();

    assert_eq!(Authenticate::mic(&bytes), Some(&bytes[72..88]));
    assert_eq!(Authenticate::mic(&bytes[..88]), Some(&bytes[72..88]));
    assert_eq!(Authenticate::mic(&bytes[..87]), None);
}
