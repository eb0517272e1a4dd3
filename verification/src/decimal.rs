//! Decimal text of integers, as `to_string` prints them, and the reading of
//! unsigned decimal literals, as `str::parse::<u32>` accepts them.
use vstd::prelude::*;
use crate::text::{ascii_to_string, is_ascii_bytes};

verus! {

/// ASCII code of the decimal digit `d` (`0 <= d < 10`).
pub open spec fn digit_byte(d: nat) -> u8 {
    (48 + d) as u8
}

/// The decimal digits of `n`, most significant first, with no leading zero
/// (zero is the single digit `0`).
pub open spec fn decimal_nat(n: nat) -> Seq<u8>
    decreases n,
{
    if n < 10 {
        seq![digit_byte(n)]
    } else {
        decimal_nat(n / 10).push(digit_byte(n % 10))
    }
}

/// Decimal text of a signed integer: a minus sign before the digits of its
/// magnitude when it is negative.
pub open spec fn decimal_int(n: int) -> Seq<u8> {
    if n < 0 {
        seq![45u8] + decimal_nat((-n) as nat)
    } else {
        decimal_nat(n as nat)
    }
}

/// Different integers have different decimal texts: a negative one starts
/// with `-`, which no digit is.
pub proof fn lemma_decimal_int_injective(a: int, b: int)
    requires
        decimal_int(a) == decimal_int(b),
    ensures
        a == b,
{
    let ma: nat = if a < 0 { (-a) as nat } else { a as nat };
    let mb: nat = if b < 0 { (-b) as nat } else { b as nat };
    lemma_decimal_nat_ascii(ma);
    lemma_decimal_nat_ascii(mb);
    if a < 0 && b < 0 {
        assert(decimal_nat(ma) =~= decimal_int(a).drop_first());
        assert(decimal_nat(mb) =~= decimal_int(b).drop_first());
        lemma_decimal_nat_injective(ma, mb);
    } else if a < 0 {
        assert(decimal_int(a)[0] == 45u8);
        assert(decimal_nat(mb)[0] >= 48);
    } else if b < 0 {
        assert(decimal_int(b)[0] == 45u8);
        assert(decimal_nat(ma)[0] >= 48);
    } else {
        lemma_decimal_nat_injective(ma, mb);
    }
}

/// Different numbers have different decimal texts.
pub proof fn lemma_decimal_nat_injective(a: nat, b: nat)
    requires
        decimal_nat(a) == decimal_nat(b),
    ensures
        a == b,
    decreases a,
{
    let da = decimal_nat(a);
    let db = decimal_nat(b);
    if a >= 10 && b >= 10 {
        assert(da.drop_last() == decimal_nat(a / 10));
        assert(db.drop_last() == decimal_nat(b / 10));
        lemma_decimal_nat_injective(a / 10, b / 10);
        assert(da.last() == db.last());
    } else if a >= 10 {
        lemma_decimal_nat_ascii(a / 10);
        assert(da.len() >= 2);
    } else if b >= 10 {
        lemma_decimal_nat_ascii(b / 10);
        assert(db.len() >= 2);
    } else {
        assert(da[0] == db[0]);
    }
}

/// Appends the decimal digits of `n` to `buf`.
pub fn push_decimal_u64(buf: &mut Vec<u8>, n: u64)
    ensures
        final(buf)@ == old(buf)@ + decimal_nat(n as nat),
    decreases n,
{
    let ghost start = buf@;
    if n >= 10 {
        push_decimal_u64(buf, n / 10);
    }
    let d: u8 = (n % 10) as u8;
    buf.push(48 + d);
    assert(buf@ =~= start + decimal_nat(n as nat));
}

/// Appends the decimal text of `n` (with a leading `-` when negative) to `buf`.
pub fn push_decimal_i64(buf: &mut Vec<u8>, n: i64)
    ensures
        final(buf)@ == old(buf)@ + decimal_int(n as int),
{
    if n < 0 {
        let ghost start = buf@;
        buf.push(45);
        let magnitude: u64 = ((-(n + 1)) as u64) + 1;
        push_decimal_u64(buf, magnitude);
        assert(buf@ =~= start + decimal_int(n as int));
    } else {
        push_decimal_u64(buf, n as u64);
    }
}

/// The decimal text of `n`, as `n.to_string()` gives it.
pub fn decimal_string_bytes(n: i64) -> (r: Vec<u8>)
    ensures
        r@ == decimal_int(n as int),
{
    let mut r: Vec<u8> = Vec::new();
    push_decimal_i64(&mut r, n);
    assert(r@ =~= decimal_int(n as int));
    r
}

/// Every byte of a decimal text is an ASCII digit or the minus sign.
pub proof fn lemma_decimal_nat_ascii(n: nat)
    ensures
        decimal_nat(n).len() >= 1,
        forall|i: int| 0 <= i < decimal_nat(n).len() ==> 48 <= #[trigger] decimal_nat(n)[i] <= 57,
    decreases n,
{
    if n >= 10 {
        lemma_decimal_nat_ascii(n / 10);
    }
}

/// The decimal text of a 64-bit integer is at most 21 bytes long.
pub proof fn lemma_decimal_int_len(n: int)
    requires
        i64::MIN <= n <= u64::MAX,
    ensures
        decimal_int(n).len() <= 21,
{
    let m: nat = if n < 0 { (-n) as nat } else { n as nat };
    assert(pow10(20) == 100000000000000000000nat) by {
        reveal_with_fuel(pow10, 21);
    }
    lemma_decimal_len_below(m, 20);
}

/// Below `10^k`, `k >= 1`, at most `k` digits.
proof fn lemma_decimal_len_below(m: nat, k: nat)
    requires
        k >= 1,
        m < pow10(k),
    ensures
        decimal_nat(m).len() <= k,
    decreases k,
{
    if m >= 10 {
        assert(k >= 2) by {
            if k == 1 {
                assert(pow10(1) == 10) by {
                    assert(pow10(0) == 1);
                }
            }
        }
        assert(m / 10 < pow10((k - 1) as nat)) by {
            assert(pow10(k) == 10 * pow10((k - 1) as nat));
            assert(m < 10 * pow10((k - 1) as nat));
        }
        lemma_decimal_len_below(m / 10, (k - 1) as nat);
    }
}

/// `10^k`.
pub open spec fn pow10(k: nat) -> nat
    decreases k,
{
    if k == 0 {
        1
    } else {
        10 * pow10((k - 1) as nat)
    }
}

/// Decimal text is ASCII.
pub proof fn lemma_decimal_int_ascii(n: int)
    ensures
        is_ascii_bytes(decimal_int(n)),
        decimal_int(n).len() >= 1,
{
    let m: nat = if n < 0 { (-n) as nat } else { n as nat };
    lemma_decimal_nat_ascii(m);
    if n < 0 {
        assert forall|i: int| 0 <= i < decimal_int(n).len() implies #[trigger] decimal_int(n)[i] < 128 by {
            if i > 0 {
                assert(decimal_int(n)[i] == decimal_nat(m)[i - 1]);
            }
        }
    }
}

/// `n.to_string()`: the decimal text of `n`, with a leading `-` when negative.
pub fn i64_to_string(n: i64) -> (s: String)
    ensures
        vstd::utf8::encode_utf8(s@) == decimal_int(n as int),
{
    let bytes = decimal_string_bytes(n);
    proof {
        lemma_decimal_int_ascii(n as int);
    }
    ascii_to_string(bytes)
}

/// `n.to_string()` for an unsigned `n`.
pub fn u64_to_string(n: u64) -> (s: String)
    ensures
        vstd::utf8::encode_utf8(s@) == decimal_nat(n as nat),
{
    let mut bytes: Vec<u8> = Vec::new();
    push_decimal_u64(&mut bytes, n);
    assert(bytes@ =~= decimal_nat(n as nat));
    proof {
        lemma_decimal_nat_ascii(n as nat);
    }
    ascii_to_string(bytes)
}

/// A byte that is an ASCII decimal digit.
pub open spec fn is_digit(b: u8) -> bool {
    48 <= b <= 57
}

/// Every byte of `s` is an ASCII decimal digit.
pub open spec fn all_digits(s: Seq<u8>) -> bool {
    forall|i: int| 0 <= i < s.len() ==> is_digit(#[trigger] s[i])
}

/// The number that the digits `s` spell, most significant first.
pub open spec fn digits_value(s: Seq<u8>) -> nat
    decreases s.len(),
{
    if s.len() == 0 {
        0
    } else {
        digits_value(s.drop_last()) * 10 + (s.last() - 48) as nat
    }
}

/// The digits of an unsigned literal: the text after an optional leading `+`.
pub open spec fn unsigned_digits(s: Seq<u8>) -> Seq<u8> {
    if s.len() > 0 && s[0] == 43 {
        s.drop_first()
    } else {
        s
    }
}

/// What `str::parse::<u32>` gives for the text `s`: the value of an optional
/// `+` followed by at least one decimal digit, when it fits in a `u32`.
pub open spec fn parse_u32_spec(s: Seq<u8>) -> Option<u32> {
    let d = unsigned_digits(s);
    if d.len() > 0 && all_digits(d) && digits_value(d) <= u32::MAX {
        Some(digits_value(d) as u32)
    } else {
        None
    }
}

/// A longer run of digits never spells a smaller number.
proof fn lemma_digits_value_prefix(s: Seq<u8>, k: int)
    requires
        all_digits(s),
        0 <= k <= s.len(),
    ensures
        digits_value(s.take(k)) <= digits_value(s),
    decreases s.len(),
{
    if k < s.len() {
        assert(s.drop_last().take(k) =~= s.take(k));
        lemma_digits_value_prefix(s.drop_last(), k);
    } else {
        assert(s.take(k) =~= s);
    }
}

/// Reads an unsigned decimal literal as `str::parse::<u32>` does; `None` where
/// that call returns an error.
pub fn parse_u32(s: &[u8]) -> (r: Option<u32>)
    ensures
        r == parse_u32_spec(s@),
{
    let len = s.len();
    let mut start: usize = 0;
    if len > 0 && s[0] == 43 {
        start = 1;
    }
    let ghost d = unsigned_digits(s@);
    assert(d =~= s@.subrange(start as int, len as int));
    if start == len {
        return None;
    }
    let mut acc: u64 = 0;
    let mut i: usize = start;
    while i < len
        invariant
            start <= i <= len,
            len == s@.len(),
            start < len,
            d == s@.subrange(start as int, len as int),
            d == unsigned_digits(s@),
            all_digits(d.take(i - start)),
            acc == digits_value(d.take(i - start)),
            acc <= u32::MAX,
        decreases len - i,
    {
        let b = s[i];
        if b < 48 || b > 57 {
            assert(!is_digit(d[i - start]));
            return None;
        }
        let ghost k = i - start;
        assert(d.take(k + 1).drop_last() =~= d.take(k));
        acc = acc * 10 + ((b - 48) as u64);
        i = i + 1;
        assert(all_digits(d.take(i - start))) by {
            assert forall|j: int| 0 <= j < d.take(i - start).len() implies is_digit(
                #[trigger] d.take(i - start)[j],
            ) by {
                if j < k {
                    assert(d.take(k)[j] == d.take(k + 1)[j]);
                }
            }
        }
        if acc > 0xffff_ffff {
            proof {
                if all_digits(d) {
                    lemma_digits_value_prefix(d, i - start);
                }
            }
            return None;
        }
    }
    assert(d.take(i - start) =~= d);
    Some(acc as u32)
}

/// ASCII code of the lowercase hexadecimal digit of `n` (`0 <= n < 16`), as
/// `format!("{:x}", n)` prints it.
pub open spec fn hex_digit(n: nat) -> u8 {
    if n < 10 {
        (48 + n) as u8
    } else {
        (87 + n) as u8
    }
}

/// Lowercase hexadecimal digit of a nibble.
pub fn hex_digit_of(n: u8) -> (r: u8)
    requires
        n < 16,
    ensures
        r == hex_digit(n as nat),
{
    if n < 10 {
        48 + n
    } else {
        87 + n
    }
}

} // verus!
