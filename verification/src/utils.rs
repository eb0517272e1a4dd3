//! Helpers on addresses.
use vstd::prelude::*;
use vstd::string::StringSliceAdditionalSpecFns;
use crate::decimal::{hex_digit, hex_digit_of, parse_u32, parse_u32_spec};
use crate::encoder::string_bytes;
use crate::text::{ascii_to_string, is_ascii_bytes};

verus! {

/// The pieces of `s` between the occurrences of `sep`, as `str::split` gives
/// them: one more piece than there are separators.
pub open spec fn split_on(s: Seq<u8>, sep: u8) -> Seq<Seq<u8>>
    decreases s.len(),
{
    if s.len() == 0 {
        seq![Seq::empty()]
    } else {
        let rest = split_on(s.drop_last(), sep);
        if s.last() == sep {
            rest.push(Seq::empty())
        } else {
            rest.update(rest.len() - 1, rest.last().push(s.last()))
        }
    }
}

/// Two lowercase hexadecimal digits of the low byte of `v`.
pub open spec fn hex_pair(v: nat) -> Seq<u8> {
    seq![hex_digit((v % 256) / 16), hex_digit(v % 16)]
}

/// Every piece of an address reads as a `u32`.
pub open spec fn ip_parts_valid(parts: Seq<Seq<u8>>) -> bool {
    forall|i: int| 0 <= i < parts.len() ==> (#[trigger] parse_u32_spec(parts[i])) is Some
}

/// The hexadecimal form of the pieces of an address, two digits for the low
/// byte of each.
pub open spec fn ip_hex_bytes(parts: Seq<Seq<u8>>) -> Seq<u8>
    decreases parts.len(),
{
    if parts.len() == 0 {
        Seq::empty()
    } else {
        ip_hex_bytes(parts.drop_last()) + hex_pair(parse_u32_spec(parts.last())->Some_0 as nat)
    }
}

/// A split has at least one piece.
proof fn lemma_split_nonempty(s: Seq<u8>, sep: u8)
    ensures
        split_on(s, sep).len() >= 1,
    decreases s.len(),
{
    if s.len() > 0 {
        lemma_split_nonempty(s.drop_last(), sep);
    }
}

/// `a` is the start of `b`.
pub open spec fn is_prefix<T>(a: Seq<T>, b: Seq<T>) -> bool {
    a.len() <= b.len() && forall|k: int| 0 <= k < a.len() ==> a[k] == b[k]
}

/// The finished pieces of a start of `s` are the first pieces of any longer
/// start of `s`.
proof fn lemma_split_prefix(s: Seq<u8>, sep: u8, i: int, j: int)
    requires
        0 <= i <= j <= s.len(),
    ensures
        is_prefix(split_on(s.take(i), sep).drop_last(), split_on(s.take(j), sep).drop_last()),
    decreases j - i,
{
    if i < j {
        lemma_split_prefix(s, sep, i, j - 1);
        lemma_split_nonempty(s.take(j - 1), sep);
        assert(s.take(j).drop_last() =~= s.take(j - 1));
        let prev = split_on(s.take(j - 1), sep);
        let cur = split_on(s.take(j), sep);
        assert(is_prefix(prev.drop_last(), cur.drop_last()));
    }
}

/// Appends the two hexadecimal digits of the low byte of `value`.
fn push_hex_pair(hex: &mut Vec<u8>, value: u32)
    requires
        is_ascii_bytes(old(hex)@),
    ensures
        final(hex)@ == old(hex)@ + hex_pair(value as nat),
        is_ascii_bytes(final(hex)@),
{
    let byte: u8 = (value % 256) as u8;
    let high: u8 = byte >> 4 & 15;
    let low: u8 = byte & 15;
    assert(high == byte / 16 && low == byte % 16) by (bit_vector)
        requires
            high == byte >> 4 & 15,
            low == byte & 15,
    ;
    assert(byte as nat % 16 == value as nat % 16);
    hex.push(hex_digit_of(high));
    hex.push(hex_digit_of(low));
    assert(hex@ =~= old(hex)@ + hex_pair(value as nat));
}

/// The value of a piece that reads as a `u32`.
fn part_value(item: &Vec<u8>) -> (r: u32)
    requires
        parse_u32_spec(item@) is Some,
    ensures
        r == parse_u32_spec(item@)->Some_0,
{
    match parse_u32(item.as_slice()) {
        Some(v) => v,
        None => 0,
    }
}

/// The piece that a separator at `i` ends is a piece of the whole split.
proof fn lemma_finished_piece(s: Seq<u8>, i: int, done: Seq<Seq<u8>>, item: Seq<u8>)
    requires
        0 <= i < s.len(),
        s[i] == 46,
        split_on(s.take(i), 46) == done.push(item),
    ensures
        split_on(s, 46)[done.len() as int] == item,
        done.len() < split_on(s, 46).len(),
{
    assert(s.take(i + 1).drop_last() =~= s.take(i));
    lemma_split_prefix(s, 46, i + 1, s.len() as int);
    assert(s.take(s.len() as int) =~= s);
    let a = split_on(s.take(i + 1), 46).drop_last();
    assert(a =~= done.push(item));
    assert(a[done.len() as int] == item);
    let f = split_on(s.take(s.len() as int), 46);
    assert(f == split_on(s, 46));
    assert(f.drop_last()[done.len() as int] == a[done.len() as int]);
    lemma_split_nonempty(s, 46);
}

/// Each piece of the dotted address `ip`, read as a number, becomes two
/// lowercase hexadecimal digits of its low byte, as `format!("{:x}{:x}", ..)`
/// prints them; `"127.0.0.1"` becomes `"7f000001"`.
pub fn get_ip_hex(ip: String) -> (r: String)
    requires
        ip_parts_valid(split_on(string_bytes(ip), 46)),
    ensures
        string_bytes(r) == ip_hex_bytes(split_on(string_bytes(ip), 46)),
{
    let s = ip.as_str().as_bytes();
    let ghost full = split_on(s@, 46);
    let mut hex: Vec<u8> = Vec::new();
    let mut item: Vec<u8> = Vec::new();
    let ghost mut done: Seq<Seq<u8>> = Seq::empty();
    let mut i: usize = 0;
    assert(s@.take(0) =~= Seq::<u8>::empty());
    while i < s.len()
        invariant
            i <= s@.len(),
            full == split_on(s@, 46),
            ip_parts_valid(full),
            split_on(s@.take(i as int), 46) == done.push(item@),
            hex@ == ip_hex_bytes(done),
            is_ascii_bytes(hex@),
        decreases s@.len() - i,
    {
        let b = s[i];
        assert(s@.take(i + 1).drop_last() =~= s@.take(i as int));
        if b == 46 {
            proof {
                lemma_finished_piece(s@, i as int, done, item@);
                assert(parse_u32_spec(full[done.len() as int]) is Some);
            }
            let value = part_value(&item);
            push_hex_pair(&mut hex, value);
            proof {
                let old_done = done;
                done = done.push(item@);
                assert(done.drop_last() =~= old_done);
            }
            item = Vec::new();
            assert(split_on(s@.take(i + 1), 46) =~= done.push(item@));
        } else {
            item.push(b);
            assert(split_on(s@.take(i + 1), 46) =~= done.push(item@));
        }
        i = i + 1;
    }
    proof {
        assert(s@.take(s@.len() as int) =~= s@);
        assert(full[done.len() as int] == item@);
        assert(parse_u32_spec(full[done.len() as int]) is Some);
    }
    let value = part_value(&item);
    push_hex_pair(&mut hex, value);
    assert(full.drop_last() =~= done);
    ascii_to_string(hex)
}

} // verus!
