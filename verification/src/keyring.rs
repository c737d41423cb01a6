//! Where an account keeps what it must not lose: its token, its keys and the
//! secret it shares with each peer. The keyring names the places; reading and
//! writing them is left to whoever holds the disk.

use crate::hex::digit;
use crate::text::{push_char, text_eq};
use vstd::prelude::*;
use vstd::string::{StrSliceExecFns, StringExecFns};

verus! {

/// Which key a file holds.
#[derive(Debug, Clone, Copy, PartialEq, Eq, Structural)]
pub enum KeyType {
    Identity,
    Signed,
    OneTime(u16),
}

/// A number in decimal digits.
pub open spec fn decimal(n: nat) -> Seq<char>
    decreases n,
{
    if n < 10 {
        seq![digit(n as u8)]
    } else {
        decimal(n / 10).push(digit((n % 10) as u8))
    }
}

/// The name of the file that holds a key.
pub open spec fn key_file(key_type: KeyType) -> Seq<char> {
    match key_type {
        KeyType::Identity => "identity"@,
        KeyType::Signed => "signed"@,
        KeyType::OneTime(idx) => "onetime_"@ + decimal(idx as nat),
    }
}

/// The directory of an account, below the home of the user.
pub open spec fn account_dir(mail: Seq<char>) -> Seq<char> {
    ".plasmax/"@ + mail
}

fn decimal_digit(v: u16) -> (r: char)
    requires
        v < 10,
    ensures
        r == digit(v as u8),
{
    if v == 0 {
        '0'
    } else if v == 1 {
        '1'
    } else if v == 2 {
        '2'
    } else if v == 3 {
        '3'
    } else if v == 4 {
        '4'
    } else if v == 5 {
        '5'
    } else if v == 6 {
        '6'
    } else if v == 7 {
        '7'
    } else if v == 8 {
        '8'
    } else {
        '9'
    }
}

/// Appends a number in decimal digits.
pub fn push_decimal(out: &mut String, n: u16)
    ensures
        final(out)@ == old(out)@ + decimal(n as nat),
    decreases n,
{
    if n >= 10 {
        push_decimal(out, n / 10);
    }
    push_char(out, decimal_digit(n % 10));
    assert(out@ =~= old(out)@ + decimal(n as nat));
}

/// The value of a decimal digit; `None` for any other character.
pub open spec fn decimal_digit_value(c: char) -> Option<nat> {
    if c == '0' {
        Some(0nat)
    } else if c == '1' {
        Some(1nat)
    } else if c == '2' {
        Some(2nat)
    } else if c == '3' {
        Some(3nat)
    } else if c == '4' {
        Some(4nat)
    } else if c == '5' {
        Some(5nat)
    } else if c == '6' {
        Some(6nat)
    } else if c == '7' {
        Some(7nat)
    } else if c == '8' {
        Some(8nat)
    } else if c == '9' {
        Some(9nat)
    } else {
        None
    }
}

/// The number that decimal digits spell. What is no digit counts as zero.
pub open spec fn decimal_value(text: Seq<char>) -> nat
    decreases text.len(),
{
    if text.len() == 0 {
        0
    } else {
        10 * decimal_value(text.drop_last()) + match decimal_digit_value(text.last()) {
            Some(v) => v,
            None => 0,
        }
    }
}

/// Ten to the power `n`.
pub open spec fn ten_to(n: nat) -> nat
    decreases n,
{
    if n == 0 {
        1
    } else {
        10 * ten_to((n - 1) as nat)
    }
}

/// The digits of a number are digits, at least one and no more than the
/// number needs, and they spell the number.
pub proof fn lemma_decimal(n: nat)
    ensures
        decimal(n).len() >= 1,
        forall|k: nat| n < ten_to(k) && k >= 1 ==> decimal(n).len() <= k,
        forall|i: int| 0 <= i < decimal(n).len() ==> decimal_digit_value(decimal(n)[i]) is Some,
        decimal_value(decimal(n)) == n,
    decreases n,
{
    if n < 10 {
        assert(decimal(n).drop_last() =~= Seq::<char>::empty());
        assert(decimal_value(decimal(n).drop_last()) == 0);
        assert forall|k: nat| n < ten_to(k) && k >= 1 implies decimal(n).len() <= k by {}
    } else {
        lemma_decimal(n / 10);
        let front = decimal(n / 10);
        let text = decimal(n);
        assert(text.drop_last() =~= front);
        assert forall|i: int| 0 <= i < text.len() implies decimal_digit_value(text[i]) is Some by {
            if i < front.len() {
                assert(text[i] == front[i]);
            }
        }
        assert forall|k: nat| n < ten_to(k) && k >= 1 implies text.len() <= k by {
            if k == 1 {
                assert(ten_to(1) == 10) by {
                    reveal_with_fuel(ten_to, 2);
                }
            } else {
                assert(n / 10 < ten_to((k - 1) as nat));
            }
        }
    }
}

/// The value of digits does not go down when a digit is added, and stays
/// under ten to the number of digits.
proof fn lemma_decimal_value_bound(text: Seq<char>)
    ensures
        decimal_value(text) < ten_to(text.len()),
        text.len() > 0 ==> decimal_value(text.drop_last()) <= decimal_value(text),
    decreases text.len(),
{
    if text.len() > 0 {
        lemma_decimal_value_bound(text.drop_last());
    }
}

fn decimal_digit_of(c: char) -> (r: Option<u32>)
    ensures
        r is Some <==> decimal_digit_value(c) is Some,
        r matches Some(v) ==> decimal_digit_value(c) == Some(v as nat) && v < 10,
{
    if c == '0' {
        Some(0u32)
    } else if c == '1' {
        Some(1u32)
    } else if c == '2' {
        Some(2u32)
    } else if c == '3' {
        Some(3u32)
    } else if c == '4' {
        Some(4u32)
    } else if c == '5' {
        Some(5u32)
    } else if c == '6' {
        Some(6u32)
    } else if c == '7' {
        Some(7u32)
    } else if c == '8' {
        Some(8u32)
    } else if c == '9' {
        Some(9u32)
    } else {
        None
    }
}

/// The number whose decimal digits a text is; `None` for a text that is the
/// digits of no number: one with another character in it, with a zero in
/// front, or past the last number there is.
pub fn parse_decimal(text: &str) -> (r: Option<u16>)
    ensures
        r matches Some(n) ==> text@ == decimal(n as nat),
        r is None ==> forall|n: u16| text@ != decimal(n as nat),
{
    let len = text.unicode_len();
    proof {
        assert(ten_to(5) == 100_000) by {
            reveal_with_fuel(ten_to, 6);
        }
        assert forall|n: u16| text@ == decimal(n as nat) implies 1 <= len <= 5 by {
            lemma_decimal(n as nat);
        }
    }
    if len == 0 || len > 5 {
        return None;
    }
    let mut acc: u32 = 0;
    let mut i: usize = 0;
    assert(text@.take(0) =~= Seq::<char>::empty());
    while i < len
        invariant
            i <= len == text@.len(),
            len <= 5,
            ten_to(5) == 100_000,
            acc as nat == decimal_value(text@.take(i as int)),
        decreases len - i,
    {
        proof {
            let next = text@.take(i + 1);
            assert(next.drop_last() =~= text@.take(i as int));
            assert(next.last() == text@[i as int]);
            lemma_decimal_value_bound(text@.take(i as int));
            lemma_ten_to_monotonic(i as nat, 4);
            assert(ten_to(4) == 10_000) by {
                reveal_with_fuel(ten_to, 5);
            }
        }
        match decimal_digit_of(text.get_char(i)) {
            Some(v) => {
                acc = acc * 10 + v;
            },
            None => {
                proof {
                    assert forall|n: u16| text@ != decimal(n as nat) by {
                        lemma_decimal(n as nat);
                    }
                }
                return None;
            },
        }
        i = i + 1;
    }
    assert(text@.take(i as int) =~= text@);
    proof {
        assert forall|n: u16| text@ == decimal(n as nat) implies acc == n by {
            lemma_decimal(n as nat);
        }
    }
    if acc > u16::MAX as u32 {
        return None;
    }
    let mut again = String::new();
    push_decimal(&mut again, acc as u16);
    assert(again@ =~= decimal(acc as nat));
    if text_eq(again.as_str(), text) {
        Some(acc as u16)
    } else {
        None
    }
}

/// Ten to a power does not go down as the power goes up.
proof fn lemma_ten_to_monotonic(a: nat, b: nat)
    requires
        a <= b,
    ensures
        0 < ten_to(a) <= ten_to(b),
    decreases b,
{
    if b == 0 {
    } else if a == b {
        lemma_ten_to_monotonic((a - 1) as nat, (b - 1) as nat);
    } else {
        lemma_ten_to_monotonic(a, (b - 1) as nat);
    }
}

/// The key that a file holds, by the name of the file; `None` for a name that
/// is the name of no key's file.
pub fn key_of_file(name: &str) -> (r: Option<KeyType>)
    ensures
        r matches Some(key_type) ==> key_file(key_type) == name@,
        r is None ==> forall|key_type: KeyType| key_file(key_type) != name@,
{
    proof {
        reveal_strlit("onetime_");
        reveal_strlit("identity");
        reveal_strlit("signed");
    }
    if text_eq(name, "identity") {
        return Some(KeyType::Identity);
    }
    if text_eq(name, "signed") {
        return Some(KeyType::Signed);
    }
    let len = name.unicode_len();
    if len < 8 || !text_eq(name.substring_char(0, 8), "onetime_") {
        proof {
            assert forall|key_type: KeyType| key_file(key_type) != name@ by {
                match key_type {
                    KeyType::OneTime(idx) => {
                        let file = key_file(key_type);
                        if file == name@ {
                            assert(file.subrange(0, 8) =~= "onetime_"@);
                        }
                    },
                    _ => {},
                }
            }
        }
        return None;
    }
    let digits = name.substring_char(8, len);
    assert(name@ =~= "onetime_"@ + digits@);
    match parse_decimal(digits) {
        Some(idx) => Some(KeyType::OneTime(idx)),
        None => {
            proof {
                assert forall|key_type: KeyType| key_file(key_type) != name@ by {
                    match key_type {
                        KeyType::OneTime(idx) => {
                            let file = key_file(key_type);
                            if file == name@ {
                                assert(file.subrange(8, file.len() as int) =~= decimal(idx as nat));
                                assert(digits@ =~= decimal(idx as nat));
                            }
                        },
                        _ => {},
                    }
                }
            }
            None
        },
    }
}

/// The keyring of one account, rooted at the account's mail address.
pub struct Keyring {
    mail: String,
}

impl View for Keyring {
    type V = Seq<char>;

    /// The mail address.
    closed spec fn view(&self) -> Seq<char> {
        self.mail@
    }
}

impl Keyring {
    pub fn new(mail: &str) -> (r: Self)
        ensures
            r@ == mail@,
    {
        Keyring { mail: String::from_str(mail) }
    }

    pub fn mail(&self) -> (r: &str)
        ensures
            r@ == self@,
    {
        self.mail.as_str()
    }

    /// The directory of the account, below the home of the user.
    pub fn account_path(&self) -> (r: String)
        ensures
            r@ == account_dir(self@),
    {
        let mut path = String::from_str(".plasmax/");
        path.append(self.mail.as_str());
        path
    }

    /// The file of the token.
    pub fn token_path(&self) -> (r: String)
        ensures
            r@ == account_dir(self@) + "/token"@,
    {
        let mut path = self.account_path();
        path.append("/token");
        path
    }

    /// The file of a key.
    pub fn key_path(&self, key_type: KeyType) -> (r: String)
        ensures
            r@ == account_dir(self@) + "/keys/"@ + key_file(key_type),
    {
        let mut path = self.account_path();
        path.append("/keys/");
        match key_type {
            KeyType::Identity => {
                path.append("identity");
            },
            KeyType::Signed => {
                path.append("signed");
            },
            KeyType::OneTime(idx) => {
                let ghost before = path@;
                path.append("onetime_");
                push_decimal(&mut path, idx);
                assert(path@ =~= before + key_file(key_type));
            },
        }
        path
    }

    /// The file of the secret shared with a peer.
    pub fn secret_path(&self, username: &str) -> (r: String)
        ensures
            r@ == account_dir(self@) + "/chat_secret/"@ + username@,
    {
        let mut path = self.account_path();
        path.append("/chat_secret/");
        path.append(username);
        path
    }
}

} // verus!
