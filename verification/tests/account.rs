use authenticate_ntlm::{Account, AuthenticateError};

#[test]
fn an_nt_hash_that_is_not_hexadecimal_is_refused() {
    let failure = Account::from_hex("alice", "not-a-hash")
        .err()
        .expect("refused");

    assert!(failure.message().contains("thirty-two"));
}

#[test]
fn an_nt_hash_is_thirty_two_digits_in_either_case_and_may_stand_in_white_space() {
    for hash in [
        "a4f49c406510bdcab6824ee7c30fd852",
        "A4F49C406510BDCAB6824EE7C30FD852",
        " \ta4f49c406510bdcab6824ee7c30fd852\r\n",
        "\u{3000}a4f49c406510bdcab6824ee7c30fd852\u{a0}",
    ] {
        assert!(Account::from_hex("alice", hash).is_ok(), "{hash:?}");
    }
    for hash in [
        "",
        "a4f49c406510bdcab6824ee7c30fd85",
        "a4f49c406510bdcab6824ee7c30fd8520",
        "a4f49c406510bdcab6824ee7c30fd8522f",
        "a4f49c406510bdca b6824ee7c30fd852",
        "g4f49c406510bdcab6824ee7c30fd852",
        "a4f49c406510bdcab6824ee7c30fd85\u{661}",
    ] {
        let failure = Account::from_hex("alice", hash).err().expect("refused");
        assert_eq!(failure, AuthenticateError::HashNotHexadecimal);
        assert_eq!(failure.message(), "an NT hash is thirty-two hexadecimal digits");
    }
}
