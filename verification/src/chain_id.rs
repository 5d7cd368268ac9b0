//! Chain ids as wallets report them in `chainChanged` notifications: a
//! hexadecimal quantity such as `"0x89"`.
use vstd::prelude::*;

verus! {

/// `s` with every leading `"0x"` removed, one after the other.
pub open spec fn strip_hex_prefixes(s: Seq<char>) -> Seq<char>
    decreases s.len(),
{
    if s.len() >= 2 && s[0] == '0' && s[1] == 'x' {
        strip_hex_prefixes(s.subrange(2, s.len() as int))
    } else {
        s
    }
}

/// A digit of base 16, in either case.
pub open spec fn is_hex_digit(c: char) -> bool {
    ('0' <= c && c <= '9') || ('a' <= c && c <= 'f') || ('A' <= c && c <= 'F')
}

/// The value of a hexadecimal digit.
pub open spec fn hex_digit_value(c: char) -> nat {
    if '0' <= c && c <= '9' {
        (c as nat - '0' as nat) as nat
    } else if 'a' <= c && c <= 'f' {
        (c as nat - 'a' as nat + 10) as nat
    } else {
        (c as nat - 'A' as nat + 10) as nat
    }
}

/// The number that the hexadecimal digits `d` spell, most significant first.
pub open spec fn hex_value(d: Seq<char>) -> nat
    decreases d.len(),
{
    if d.len() == 0 {
        0
    } else {
        hex_value(d.drop_last()) * 16 + hex_digit_value(d.last())
    }
}

/// The digits of a base-16 number after an optional leading `+`.
pub open spec fn radix16_digits(s: Seq<char>) -> Seq<char> {
    if s.len() > 0 && s[0] == '+' {
        s.drop_first()
    } else {
        s
    }
}

/// What reading `s` as an unsigned 64-bit number in base 16 gives: an
/// optional `+`, then at least one hexadecimal digit and nothing else, with
/// a value that fits in 64 bits.
pub open spec fn radix16_u64(s: Seq<char>) -> Option<u64> {
    let d = radix16_digits(s);
    if d.len() > 0 && (forall|i: int| 0 <= i < d.len() ==> is_hex_digit(#[trigger] d[i]))
        && hex_value(d) <= u64::MAX {
        Some(hex_value(d) as u64)
    } else {
        None
    }
}

/// The chain id that a `chainChanged` notification carries, if it is well formed.
pub open spec fn chain_id_of(s: Seq<char>) -> Option<u64> {
    radix16_u64(strip_hex_prefixes(s))
}

proof fn lemma_hex_value_prefix(d: Seq<char>, k: int)
    requires
        0 <= k <= d.len(),
    ensures
        hex_value(d.subrange(0, k)) <= hex_value(d),
    decreases d.len(),
{
    if k < d.len() {
        lemma_hex_value_prefix(d.drop_last(), k);
        assert(d.drop_last().subrange(0, k) =~= d.subrange(0, k));
    } else {
        assert(d.subrange(0, k) =~= d);
    }
}

fn hex_digit(c: char) -> (r: Option<u64>)
    ensures
        r is Some <==> is_hex_digit(c),
        r matches Some(v) ==> v == hex_digit_value(c) && v < 16,
{
    if '0' <= c && c <= '9' {
        Some((c as u32 - '0' as u32) as u64)
    } else if 'a' <= c && c <= 'f' {
        Some((c as u32 - 'a' as u32 + 10) as u64)
    } else if 'A' <= c && c <= 'F' {
        Some((c as u32 - 'A' as u32 + 10) as u64)
    } else {
        None
    }
}

/// Reads the chain id of a `chainChanged` notification: every leading `"0x"`
/// is dropped and the rest is read as a base-16 `u64`. `None` where that
/// reading fails.
pub fn parse_chain_id(s: &str) -> (r: Option<u64>)
    ensures
        r == chain_id_of(s@),
{
    let n = s.unicode_len();
    let mut start: usize = 0;
    assert(s@.subrange(0, n as int) =~= s@);
    while n - start > 1 && s.get_char(start) == '0' && s.get_char(start + 1) == 'x'
        invariant
            n == s@.len(),
            start <= n,
            strip_hex_prefixes(s@) == strip_hex_prefixes(s@.subrange(start as int, n as int)),
        decreases n - start,
    {
        let ghost rest = s@.subrange(start as int, n as int);
        assert(rest.subrange(2, rest.len() as int) =~= s@.subrange(start + 2, n as int));
        start = start + 2;
    }
    let ghost t = s@.subrange(start as int, n as int);
    assert(strip_hex_prefixes(t) == t);
    if start < n && s.get_char(start) == '+' {
        start = start + 1;
    }
    let ghost d = s@.subrange(start as int, n as int);
    assert(d =~= radix16_digits(t));
    assert(radix16_digits(strip_hex_prefixes(s@)) == d);
    if start == n {
        return None;
    }
    let mut acc: u64 = 0;
    let mut i: usize = start;
    while i < n
        invariant
            n == s@.len(),
            start < n,
            start <= i <= n,
            d == s@.subrange(start as int, n as int),
            radix16_digits(strip_hex_prefixes(s@)) == d,
            forall|j: int| start <= j < i ==> is_hex_digit(#[trigger] s@[j]),
            acc == hex_value(s@.subrange(start as int, i as int)),
        decreases n - i,
    {
        let c = s.get_char(i);
        let ghost prefix = s@.subrange(start as int, i + 1);
        assert(prefix.drop_last() =~= s@.subrange(start as int, i as int));
        match hex_digit(c) {
            None => {
                assert(d[i - start] == c);
                return None;
            },
            Some(v) => {
                if acc > (u64::MAX - v) / 16 {
                    proof {
                        assert(hex_value(prefix) > u64::MAX);
                        lemma_hex_value_prefix(d, i + 1 - start);
                        assert(d.subrange(0, i + 1 - start) =~= prefix);
                    }
                    return None;
                }
                acc = acc * 16 + v;
                i = i + 1;
            },
        }
    }
    assert(s@.subrange(start as int, i as int) =~= d);
    assert forall|j: int| 0 <= j < d.len() implies is_hex_digit(#[trigger] d[j]) by {
        assert(d[j] == s@[start + j]);
    }
    Some(acc)
}

/// The lowercase hexadecimal digit of `v`, for `v < 16`.
pub open spec fn lower_hex_digit(v: nat) -> char {
    if v < 10 {
        ((v + '0' as nat) as u32) as char
    } else {
        ((v - 10 + 'a' as nat) as u32) as char
    }
}

/// The lowercase hexadecimal digits of `n`, most significant first, with no
/// leading zero: the way a wallet writes a chain id after its `0x`.
pub open spec fn lower_hex(n: nat) -> Seq<char>
    decreases n,
{
    if n < 16 {
        seq![lower_hex_digit(n)]
    } else {
        lower_hex(n / 16).push(lower_hex_digit(n % 16))
    }
}

proof fn lemma_lower_hex_digit(v: nat)
    requires
        v < 16,
    ensures
        is_hex_digit(lower_hex_digit(v)),
        hex_digit_value(lower_hex_digit(v)) == v,
        lower_hex_digit(v) != '+',
        lower_hex_digit(v) == '0' <==> v == 0,
{
}

proof fn lemma_lower_hex(n: nat)
    ensures
        lower_hex(n).len() > 0,
        forall|i: int| 0 <= i < lower_hex(n).len() ==> is_hex_digit(#[trigger] lower_hex(n)[i]),
        hex_value(lower_hex(n)) == n,
        n >= 16 ==> lower_hex(n)[0] != '0',
        lower_hex(n)[0] != '+',
    decreases n,
{
    if n < 16 {
        lemma_lower_hex_digit(n);
        assert(lower_hex(n).drop_last() =~= Seq::<char>::empty());
        assert(hex_value(lower_hex(n).drop_last()) == 0);
    } else {
        lemma_lower_hex(n / 16);
        lemma_lower_hex_digit(n % 16);
        let t = lower_hex(n);
        assert(t.drop_last() =~= lower_hex(n / 16));
        assert(t.last() == lower_hex_digit(n % 16));
        assert((n / 16) * 16 + n % 16 == n);
        assert(hex_value(t) == hex_value(t.drop_last()) * 16 + hex_digit_value(t.last()));
        assert forall|i: int| 0 <= i < t.len() implies is_hex_digit(#[trigger] t[i]) by {
            if i < t.len() - 1 {
                assert(t[i] == lower_hex(n / 16)[i]);
            }
        }
        if n / 16 >= 16 {
            assert(t[0] == lower_hex(n / 16)[0]);
        } else {
            assert(t[0] == lower_hex_digit(n / 16));
            lemma_lower_hex_digit(n / 16);
        }
    }
}

/// A chain id that the wallet writes as `0x` and its lowercase hexadecimal
/// digits is read back as itself.
pub proof fn lemma_chain_id_round_trip(id: u64)
    ensures
        chain_id_of(seq!['0', 'x'] + lower_hex(id as nat)) == Some(id),
{
    let t = lower_hex(id as nat);
    lemma_lower_hex(id as nat);
    let s = seq!['0', 'x'] + t;
    assert(s.subrange(2, s.len() as int) =~= t);
    if id >= 16 {
        assert(t[0] != '0');
    } else {
        assert(t.len() == 1);
    }
    assert(strip_hex_prefixes(t) == t);
    assert(strip_hex_prefixes(s) == t);
    assert(radix16_digits(t) == t);
}

/// A leading `0x` changes nothing of what a chain id text is read as.
pub proof fn lemma_chain_id_prefix_optional(s: Seq<char>)
    ensures
        chain_id_of(seq!['0', 'x'] + s) == chain_id_of(s),
{
    let p = seq!['0', 'x'] + s;
    assert(p.subrange(2, p.len() as int) =~= s);
}

} // verus!
