//! One user the node holds an NT hash for.

use crate::refusal::{AuthenticateError, Refusal};
use crate::text;
use vstd::prelude::*;

verus! {

/// The value of a hexadecimal digit, in either case.
pub open spec fn hex_digit(c: char) -> Option<u8> {
    if '0' <= c <= '9' {
        Some((c as int - '0' as int) as u8)
    } else if 'a' <= c <= 'f' {
        Some((c as int - 'a' as int + 10) as u8)
    } else if 'A' <= c <= 'F' {
        Some((c as int - 'A' as int + 10) as u8)
    } else {
        None
    }
}

/// Whether a text is thirty-two hexadecimal digits.
pub open spec fn is_nt_hash(digits: Seq<char>) -> bool {
    digits.len() == 32 && forall|i: int| 0 <= i < 32 ==> hex_digit(#[trigger] digits[i]) is Some
}

/// The sixteen bytes that thirty-two hexadecimal digits write, the high half of each first.
pub open spec fn nt_hash_bytes(digits: Seq<char>) -> Seq<u8> {
    Seq::new(
        16,
        |i: int|
            (16 * hex_digit(digits[2 * i])->Some_0 + hex_digit(digits[2 * i + 1])->Some_0) as u8,
    )
}

/// What the node holds of one user.
pub struct AccountView {
    pub user: Seq<char>,
    pub domain: Option<Seq<char>>,
    pub hash: Seq<u8>,
}

impl AccountView {
    /// Whether this is the account of `user` in `domain`: the names are compared in upper case,
    /// and an account held for no domain in particular is held for any.
    pub open spec fn is_of(self, user: Seq<char>, domain: Seq<char>) -> bool {
        &&& text::uppercase(self.user) == text::uppercase(user)
        &&& match self.domain {
            Some(held) => text::uppercase(held) == text::uppercase(domain),
            None => true,
        }
    }
}

/// One user the node holds an NT hash for.
#[derive(Clone)]
pub struct Account {
    user: String,
    domain: Option<String>,
    hash: [u8; 16],
}

impl View for Account {
    type V = AccountView;

    closed spec fn view(&self) -> AccountView {
        AccountView {
            user: self.user@,
            domain: match self.domain {
                Some(domain) => Some(domain@),
                None => None,
            },
            hash: self.hash@,
        }
    }
}

impl Account {
    /// A user in any domain, by the NT hash: MD4 of the UTF-16LE password, thirty-two hexadecimal
    /// digits as a SAM or `secretsdump` prints it.
    ///
    /// # Errors
    ///
    /// Where the text is not thirty-two hexadecimal digits.
    pub fn from_hex(user: &str, hash: &str) -> (account: Result<Self, AuthenticateError>)
        ensures
            match account {
                Ok(account) => {
                    &&& is_nt_hash(text::trimmed(hash@))
                    &&& account@ == (AccountView {
                        user: user@,
                        domain: None,
                        hash: nt_hash_bytes(text::trimmed(hash@)),
                    })
                },
                Err(why) => {
                    &&& !is_nt_hash(text::trimmed(hash@))
                    &&& why@ == Refusal::<Seq<char>>::HashNotHexadecimal
                },
            },
    {
        match nt_hash(hash.trim()) {
            Some(hash) => Ok(Account { user: user.to_owned(), domain: None, hash }),
            None => Err(Refusal::HashNotHexadecimal),
        }
    }

    /// Only where the client names this domain, compared without case.
    #[must_use]
    pub fn in_domain(self, domain: &str) -> (account: Self)
        ensures
            account@ == (AccountView { domain: Some(domain@), ..self@ }),
    {
        Account { user: self.user, domain: Some(domain.to_owned()), hash: self.hash }
    }

    /// Whether this is the account of `user` in `domain`.
    pub(crate) fn is(&self, user: &str, domain: &str) -> (is: bool)
        ensures
            is == self@.is_of(user@, domain@),
    {
        if self.user.as_str().to_uppercase() != user.to_uppercase() {
            return false;
        }
        match &self.domain {
            Some(held) => held.as_str().to_uppercase() == domain.to_uppercase(),
            None => true,
        }
    }

    /// The NT hash.
    pub(crate) fn hash(&self) -> (hash: &[u8; 16])
        ensures
            hash@ == self@.hash,
    {
        &self.hash
    }
}

/// The value of a hexadecimal digit.
fn digit(c: char) -> (value: Option<u8>)
    ensures
        value == hex_digit(c),
{
    let point: u32 = c as u32;
    if '0' <= c && c <= '9' {
        Some((point - 48) as u8)
    } else if 'a' <= c && c <= 'f' {
        Some((point - 87) as u8)
    } else if 'A' <= c && c <= 'F' {
        Some((point - 55) as u8)
    } else {
        None
    }
}

/// The sixteen bytes that thirty-two hexadecimal digits write.
fn nt_hash(digits: &str) -> (hash: Option<[u8; 16]>)
    ensures
        match hash {
            Some(hash) => is_nt_hash(digits@) && hash@ == nt_hash_bytes(digits@),
            None => !is_nt_hash(digits@),
        },
{
    let mut values: Vec<u8> = Vec::new();
    for c in iter: digits.chars()
        invariant
            iter.seq() == digits@,
            values.len() == iter.index(),
            forall|i: int|
                0 <= i < values.len() ==> hex_digit(#[trigger] digits@[i]) == Some(values[i]),
    {
        match digit(c) {
            Some(value) => values.push(value),
            None => {
                assert(hex_digit(digits@[iter.index()]) is None);
                return None;
            },
        }
    }
    if values.len() != 32 {
        return None;
    }
    let mut hash: [u8; 16] = [0; 16];
    for at in 0..16usize
        invariant
            values.len() == 32,
            digits@.len() == 32,
            forall|i: int|
                0 <= i < values.len() ==> hex_digit(#[trigger] digits@[i]) == Some(values[i]),
            forall|i: int| 0 <= i < at ==> hash[i] == nt_hash_bytes(digits@)[i],
    {
        assert(hex_digit(digits@[2 * at]) == Some(values[2 * at]));
        assert(hex_digit(digits@[2 * at + 1]) == Some(values[2 * at + 1]));
        hash[at] = 16 * values[2 * at] + values[2 * at + 1];
    }
    assert(hash@ =~= nt_hash_bytes(digits@));
    Some(hash)
}

} // verus!
