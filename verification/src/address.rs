//! Account addresses, as wallets report them in `accountsChanged`
//! notifications: hexadecimal text of 20 bytes.
use vstd::prelude::*;
use crate::chain_id::{is_hex_digit, hex_digit_value, lower_hex_digit};

verus! {

/// A 20-byte Ethereum account address.
#[derive(Clone, Copy, Debug, PartialEq, Eq, Hash)]
pub struct Address(pub [u8; 20]);

impl View for Address {
    type V = Seq<u8>;

    open spec fn view(&self) -> Seq<u8> {
        self.0@
    }
}

/// The twenty zero bytes of the zero address.
pub open spec fn zero_bytes() -> Seq<u8> {
    Seq::new(20, |i: int| 0u8)
}

/// The hexadecimal digits of an address text: the text after an optional
/// `0x` or `0X`.
pub open spec fn address_digits(s: Seq<char>) -> Seq<char> {
    if s.len() >= 2 && s[0] == '0' && (s[1] == 'x' || s[1] == 'X') {
        s.subrange(2, s.len() as int)
    } else {
        s
    }
}

/// The byte that the two hexadecimal digits `hi`, `lo` spell.
pub open spec fn hex_byte(hi: char, lo: char) -> u8 {
    (hex_digit_value(hi) * 16 + hex_digit_value(lo)) as u8
}

/// The address that the text `s` spells: exactly forty hexadecimal digits,
/// of either case, after an optional `0x` or `0X`, two digits to a byte,
/// most significant first.
pub open spec fn address_from_text(s: Seq<char>) -> Option<Seq<u8>> {
    let d = address_digits(s);
    if d.len() == 40 && (forall|i: int| 0 <= i < d.len() ==> is_hex_digit(#[trigger] d[i])) {
        Some(Seq::new(20, |i: int| hex_byte(d[2 * i], d[2 * i + 1])))
    } else {
        None
    }
}

/// What an `accountsChanged` account entry stands for: the address its text
/// spells, or the zero address where the text spells none.
pub open spec fn account_or_zero(s: Seq<char>) -> Seq<u8> {
    match address_from_text(s) {
        Some(bytes) => bytes,
        None => zero_bytes(),
    }
}

/// Parses an address with `alloy_primitives::Address::from_str`.
///
/// Trusted: the contract claims that `from_str` accepts exactly forty
/// hexadecimal digits after an optional `0x`/`0X` prefix and decodes them
/// pairwise, as `const_hex::decode_to_array` does, and fails on anything else.
#[verifier::external_body]
fn parse_address_text(s: &str) -> (r: Option<[u8; 20]>)
    ensures
        match address_from_text(s@) {
            Some(bytes) => r matches Some(a) && a@ == bytes,
            None => r is None,
        },
{
    match <alloy_primitives::Address as core::str::FromStr>::from_str(s) {
        Ok(a) => Some(a.into_array()),
        Err(_) => None,
    }
}

impl Address {
    /// The zero address.
    pub fn zero() -> (r: Address)
        ensures
            r@ == zero_bytes(),
    {
        let r = Address([0u8; 20]);
        assert(r@ =~= zero_bytes());
        r
    }

    /// The address that `s` spells, if any (see [`address_from_text`]).
    pub fn from_text(s: &str) -> (r: Option<Address>)
        ensures
            match address_from_text(s@) {
                Some(bytes) => r matches Some(a) && a@ == bytes,
                None => r is None,
            },
    {
        match parse_address_text(s) {
            Some(bytes) => Some(Address(bytes)),
            None => None,
        }
    }
}

/// The accounts of an `accountsChanged` notification, in the order given;
/// an entry that spells no address stands for the zero address.
pub fn accounts_from_text(accounts: &Vec<String>) -> (r: Vec<Address>)
    ensures
        r.len() == accounts.len(),
        forall|i: int| 0 <= i < r.len() ==> #[trigger] r[i]@ == account_or_zero(accounts[i]@),
{
    let mut r: Vec<Address> = Vec::new();
    for k in 0..accounts.len()
        invariant
            r.len() == k,
            forall|i: int| 0 <= i < k ==> #[trigger] r[i]@ == account_or_zero(accounts[i]@),
    {
        let a = match Address::from_text(accounts[k].as_str()) {
            Some(a) => a,
            None => Address::zero(),
        };
        r.push(a);
    }
    r
}

/// The bytes `b` written in lowercase hexadecimal, two digits to a byte.
pub open spec fn bytes_lower_hex(b: Seq<u8>) -> Seq<char> {
    Seq::new(
        2 * b.len(),
        |i: int|
            if i % 2 == 0 {
                lower_hex_digit((b[i / 2] / 16) as nat)
            } else {
                lower_hex_digit((b[i / 2] % 16) as nat)
            },
    )
}

/// An account that the wallet writes as `0x` and the forty lowercase
/// hexadecimal digits of its bytes is read back as those bytes.
pub proof fn lemma_address_round_trip(b: Seq<u8>)
    requires
        b.len() == 20,
    ensures
        address_from_text(seq!['0', 'x'] + bytes_lower_hex(b)) == Some(b),
{
    let t = bytes_lower_hex(b);
    let s = seq!['0', 'x'] + t;
    assert(s.subrange(2, s.len() as int) =~= t);
    assert(address_digits(s) == t);
    assert forall|i: int| 0 <= i < t.len() implies is_hex_digit(#[trigger] t[i]) by {
        let v = b[i / 2];
        assert(v / 16 < 16);
        assert(v % 16 < 16);
    }
    let decoded = Seq::new(20, |i: int| hex_byte(t[2 * i], t[2 * i + 1]));
    assert forall|i: int| 0 <= i < 20 implies decoded[i] == b[i] by {
        assert((2 * i) % 2 == 0 && (2 * i) / 2 == i);
        assert((2 * i + 1) % 2 == 1 && (2 * i + 1) / 2 == i);
        let v = b[i];
        assert(hex_digit_value(lower_hex_digit((v / 16) as nat)) == v / 16);
        assert(hex_digit_value(lower_hex_digit((v % 16) as nat)) == v % 16);
        assert((v / 16) * 16 + v % 16 == v);
    }
    assert(decoded =~= b);
}

/// An account entry that spells an address stands for that address, and
/// only one that spells none stands for the zero address.
pub proof fn lemma_account_is_its_address(s: Seq<char>)
    ensures
        address_from_text(s) matches Some(b) ==> account_or_zero(s) == b,
        address_from_text(s) is None ==> account_or_zero(s) == Seq::new(20, |i: int| 0u8),
{
}

/// An account that the wallet writes as `0x` and the lowercase digits of
/// its bytes stands for those bytes.
pub proof fn lemma_account_round_trip(b: Seq<u8>)
    requires
        b.len() == 20,
    ensures
        account_or_zero(seq!['0', 'x'] + bytes_lower_hex(b)) == b,
{
    lemma_address_round_trip(b);
}

/// Reading an address ignores the case of its digits: forty hexadecimal
/// digits, each of either case, that spell the nibbles of `b` (high nibble
/// first) read as `b`, with no prefix, with `0x` and with `0X`.
pub proof fn lemma_address_any_case(t: Seq<char>, b: Seq<u8>)
    requires
        b.len() == 20,
        t.len() == 40,
        forall|i: int|
            0 <= i < 40 ==> {
                &&& ('0' <= #[trigger] t[i] && t[i] <= '9') || ('a' <= t[i] && t[i] <= 'f') || (
                'A' <= t[i] && t[i] <= 'F')
                &&& hex_digit_value(t[i]) == if i % 2 == 0 {
                    (b[i / 2] / 16) as nat
                } else {
                    (b[i / 2] % 16) as nat
                }
            },
    ensures
        address_from_text(t) == Some(b),
        address_from_text(seq!['0', 'x'] + t) == Some(b),
        address_from_text(seq!['0', 'X'] + t) == Some(b),
{
    assert forall|i: int| 0 <= i < t.len() implies is_hex_digit(#[trigger] t[i]) by {}
    let decoded = Seq::new(20, |i: int| hex_byte(t[2 * i], t[2 * i + 1]));
    assert forall|i: int| 0 <= i < 20 implies decoded[i] == b[i] by {
        assert((2 * i) % 2 == 0 && (2 * i) / 2 == i);
        assert((2 * i + 1) % 2 == 1 && (2 * i + 1) / 2 == i);
        let v = b[i];
        assert(hex_digit_value(t[2 * i]) == v / 16);
        assert(hex_digit_value(t[2 * i + 1]) == v % 16);
        assert((v / 16) * 16 + v % 16 == v);
    }
    assert(decoded =~= b);
    if t.len() >= 2 && t[0] == '0' && (t[1] == 'x' || t[1] == 'X') {
        assert(false);
    }
    assert(address_digits(t) == t);
    let p = seq!['0', 'x'] + t;
    assert(p.subrange(2, p.len() as int) =~= t);
    let q = seq!['0', 'X'] + t;
    assert(q.subrange(2, q.len() as int) =~= t);
}

/// The digit value of a letter does not depend on its case.
pub proof fn lemma_hex_letter_case(lower: char, upper: char)
    requires
        'a' <= lower <= 'f',
        upper as u32 == lower as u32 - 32,
    ensures
        is_hex_digit(lower),
        is_hex_digit(upper),
        hex_digit_value(lower) == hex_digit_value(upper),
        hex_digit_value(lower) == lower as nat - 'a' as nat + 10,
{
}

} // verus!
