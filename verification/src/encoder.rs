//! The binary encoding of headers and messages on the wire.
use vstd::prelude::*;
use vstd::string::StringSliceAdditionalSpecFns;
use vstd::utf8::{is_ascii_chars, is_ascii_chars_encode_utf8};
use crate::buffer;
use crate::consts;
use crate::header::Header;
use crate::message::MessageData;

verus! {

broadcast use is_ascii_chars_encode_utf8;

/// Unsigned base-128 encoding of `n`: seven bits per byte, least significant
/// group first, the high bit set on every byte but the last.
pub open spec fn varint(n: nat) -> Seq<u8>
    decreases n,
{
    if n < 128 {
        seq![n as u8]
    } else {
        seq![(n % 128 + 128) as u8] + varint(n / 128)
    }
}

/// Every byte of a varint but the last has its high bit set, the last has it
/// clear, so a reader knows where the number ends.
pub proof fn lemma_varint_shape(n: nat)
    ensures
        varint(n).len() >= 1,
        varint(n).last() < 128,
        forall|i: int| 0 <= i < varint(n).len() - 1 ==> #[trigger] varint(n)[i] >= 128,
    decreases n,
{
    if n >= 128 {
        lemma_varint_shape(n / 128);
        let rest = varint(n / 128);
        assert(varint(n) == seq![(n % 128 + 128) as u8] + rest);
        assert forall|i: int| 0 <= i < varint(n).len() - 1 implies #[trigger] varint(n)[i] >= 128 by {
            if i > 0 {
                assert(varint(n)[i] == rest[i - 1]);
            }
        }
    }
}

/// Different numbers have different varints: the encoding can be read back.
pub proof fn lemma_varint_injective(a: nat, b: nat)
    requires
        varint(a) == varint(b),
    ensures
        a == b,
    decreases a,
{
    assert(varint(a)[0] == varint(b)[0]);
    if a < 128 {
        if b >= 128 {
            assert(varint(b)[0] == (b % 128 + 128) as u8);
        } else {
            assert(varint(b)[0] == b as u8);
        }
    } else {
        assert(varint(a)[0] == (a % 128 + 128) as u8);
        if b < 128 {
            assert(varint(b)[0] == b as u8);
        } else {
            assert(varint(b)[0] == (b % 128 + 128) as u8);
            assert(a % 128 == b % 128);
            assert(varint(a / 128) =~= varint(a).drop_first());
            assert(varint(b / 128) =~= varint(b).drop_first());
            lemma_varint_injective(a / 128, b / 128);
        }
    }
}

/// A varint ends where it ends, whatever follows: when two varints followed
/// by anything agree, the numbers agree and so does what follows.
pub proof fn lemma_varint_prefix_free(a: nat, b: nat, r1: Seq<u8>, r2: Seq<u8>)
    requires
        varint(a) + r1 == varint(b) + r2,
    ensures
        a == b,
        r1 == r2,
    decreases a,
{
    let x = varint(a) + r1;
    let y = varint(b) + r2;
    assert(x[0] == y[0]);
    if a < 128 {
        assert(x[0] == a as u8);
        if b >= 128 {
            assert(y[0] == (b % 128 + 128) as u8);
        } else {
            assert(y[0] == b as u8);
            assert(r1 =~= x.drop_first());
            assert(r2 =~= y.drop_first());
        }
    } else {
        assert(x[0] == (a % 128 + 128) as u8);
        if b < 128 {
            assert(y[0] == b as u8);
        } else {
            assert(y[0] == (b % 128 + 128) as u8);
            assert(varint(a / 128) + r1 =~= x.drop_first());
            assert(varint(b / 128) + r2 =~= y.drop_first());
            lemma_varint_prefix_free(a / 128, b / 128, r1, r2);
        }
    }
}

/// A length-prefixed string ends where it ends: when two of them followed by
/// anything agree, the strings agree and so does what follows.
pub proof fn lemma_wire_bytes_prefix_free(x: Seq<u8>, y: Seq<u8>, r1: Seq<u8>, r2: Seq<u8>)
    requires
        wire_bytes(x) + r1 == wire_bytes(y) + r2,
    ensures
        x == y,
        r1 == r2,
{
    assert(wire_bytes(x) + r1 =~= varint(x.len()) + (x + r1));
    assert(wire_bytes(y) + r2 =~= varint(y.len()) + (y + r2));
    lemma_varint_prefix_free(x.len(), y.len(), x + r1, y + r2);
    assert(x =~= (x + r1).take(x.len() as int));
    assert(y =~= (y + r2).take(y.len() as int));
    assert(r1 =~= (x + r1).skip(x.len() as int));
    assert(r2 =~= (y + r2).skip(y.len() as int));
}

/// A length-prefixed byte string: the varint of its length, then the bytes.
pub open spec fn wire_bytes(b: Seq<u8>) -> Seq<u8> {
    varint(b.len()) + b
}

/// A length-prefixed string: its UTF-8 bytes, as `wire_bytes` frames them.
pub open spec fn wire_str(s: &str) -> Seq<u8> {
    wire_bytes(s.spec_bytes())
}

/// The UTF-8 bytes of a `String`.
pub open spec fn string_bytes(s: String) -> Seq<u8> {
    vstd::utf8::encode_utf8(s@)
}

/// A string whose byte length fits the signed 64-bit length prefix.
pub open spec fn fits_wire(s: &str) -> bool {
    s.spec_bytes().len() <= i64::MAX
}

/// The encoding of a header: the protocol version, then the domain, host
/// name and address of the sender, the thread group, id and name, the
/// message ids and the session token, each length-prefixed.
pub open spec fn header_bytes(h: Header) -> Seq<u8> {
    header_fields_bytes(
        h.domain().spec_bytes(),
        h.hostname().spec_bytes(),
        h.ip().spec_bytes(),
        string_bytes(h.message_id()),
        h.parent_message_id().spec_bytes(),
        h.root_message_id().spec_bytes(),
    )
}

/// The encoding of a header with the given fields, as UTF-8 bytes.
pub open spec fn header_fields_bytes(
    domain: Seq<u8>,
    hostname: Seq<u8>,
    ip: Seq<u8>,
    message_id: Seq<u8>,
    parent_message_id: Seq<u8>,
    root_message_id: Seq<u8>,
) -> Seq<u8> {
    consts::BINARY_PROTOCOL.spec_bytes() + (wire_bytes(domain) + (wire_bytes(hostname) + (wire_bytes(ip)
        + (wire_str(DEFAULT_THREAD_GROUP_NAME) + (wire_str(DEFAULT_THREAD_ID) + (wire_str(
        DEFAULT_THREAD_NAME,
    ) + (wire_bytes(message_id) + (wire_bytes(parent_message_id) + (wire_bytes(root_message_id)
        + wire_str(DEFAULT_SESSION_TOKEN))))))))))
}

/// What follows equal prefixes agrees when the wholes agree.
proof fn lemma_strip_prefix(p: Seq<u8>, x: Seq<u8>, y: Seq<u8>)
    requires
        p + x == p + y,
    ensures
        x == y,
{
    assert(x =~= (p + x).skip(p.len() as int));
    assert(y =~= (p + y).skip(p.len() as int));
}

/// An encoded header can be read back: headers with the same encoding have
/// the same domain, host name, address, message id, parent and root ids.
pub proof fn lemma_header_fields_decodable(
    d1: Seq<u8>,
    h1: Seq<u8>,
    i1: Seq<u8>,
    m1: Seq<u8>,
    p1: Seq<u8>,
    r1: Seq<u8>,
    d2: Seq<u8>,
    h2: Seq<u8>,
    i2: Seq<u8>,
    m2: Seq<u8>,
    p2: Seq<u8>,
    r2: Seq<u8>,
)
    requires
        header_fields_bytes(d1, h1, i1, m1, p1, r1) == header_fields_bytes(d2, h2, i2, m2, p2, r2),
    ensures
        d1 == d2 && h1 == h2 && i1 == i2 && m1 == m2 && p1 == p2 && r1 == r2,
{
    let s = wire_str(DEFAULT_SESSION_TOKEN);
    let tail1 = wire_bytes(m1) + (wire_bytes(p1) + (wire_bytes(r1) + s));
    let tail2 = wire_bytes(m2) + (wire_bytes(p2) + (wire_bytes(r2) + s));
    let n1 = wire_str(DEFAULT_THREAD_NAME) + tail1;
    let n2 = wire_str(DEFAULT_THREAD_NAME) + tail2;
    let t1 = wire_str(DEFAULT_THREAD_ID) + n1;
    let t2 = wire_str(DEFAULT_THREAD_ID) + n2;
    let g1 = wire_str(DEFAULT_THREAD_GROUP_NAME) + t1;
    let g2 = wire_str(DEFAULT_THREAD_GROUP_NAME) + t2;
    lemma_strip_prefix(
        consts::BINARY_PROTOCOL.spec_bytes(),
        wire_bytes(d1) + (wire_bytes(h1) + (wire_bytes(i1) + g1)),
        wire_bytes(d2) + (wire_bytes(h2) + (wire_bytes(i2) + g2)),
    );
    lemma_wire_bytes_prefix_free(d1, d2, wire_bytes(h1) + (wire_bytes(i1) + g1), wire_bytes(h2) + (
    wire_bytes(i2) + g2));
    lemma_wire_bytes_prefix_free(h1, h2, wire_bytes(i1) + g1, wire_bytes(i2) + g2);
    lemma_wire_bytes_prefix_free(i1, i2, g1, g2);
    lemma_strip_prefix(wire_str(DEFAULT_THREAD_GROUP_NAME), t1, t2);
    lemma_strip_prefix(wire_str(DEFAULT_THREAD_ID), n1, n2);
    lemma_strip_prefix(wire_str(DEFAULT_THREAD_NAME), tail1, tail2);
    lemma_wire_bytes_prefix_free(m1, m2, wire_bytes(p1) + (wire_bytes(r1) + s), wire_bytes(p2) + (
    wire_bytes(r2) + s));
    lemma_wire_bytes_prefix_free(p1, p2, wire_bytes(r1) + s, wire_bytes(r2) + s);
    lemma_wire_bytes_prefix_free(r1, r2, s, s);
}

/// The fields of a header that must fit the length prefix.
pub open spec fn header_fits(h: Header) -> bool {
    &&& fits_wire(h.domain())
    &&& fits_wire(h.hostname())
    &&& fits_wire(h.ip())
    &&& string_bytes(h.message_id()).len() <= i64::MAX
    &&& fits_wire(h.parent_message_id())
    &&& fits_wire(h.root_message_id())
}

/// The opening part of a message: its time, type and name.
pub open spec fn message_start_bytes(m: MessageData) -> Seq<u8> {
    varint(m.time as nat) + wire_bytes(string_bytes(m.m_type)) + wire_bytes(string_bytes(m.name))
}

/// The closing part of a message: its status and data.
pub open spec fn message_end_bytes(m: MessageData) -> Seq<u8> {
    wire_str(m.status) + wire_bytes(m.data@)
}

/// What the closing part of a message needs: a status and data whose
/// lengths fit the length prefix.
pub open spec fn message_end_fits(m: MessageData) -> bool {
    &&& fits_wire(m.status)
    &&& m.data@.len() <= i64::MAX
}

/// What an encoded message needs: a time that is not negative and fields
/// whose lengths fit the length prefix.
pub open spec fn message_fits(m: MessageData) -> bool {
    &&& m.time >= 0
    &&& string_bytes(m.m_type).len() <= i64::MAX
    &&& string_bytes(m.name).len() <= i64::MAX
    &&& fits_wire(m.status)
    &&& m.data@.len() <= i64::MAX
}

pub const DEFAULT_THREAD_GROUP_NAME: &'static str = "";
pub const DEFAULT_THREAD_ID: &'static str = "0";
pub const DEFAULT_THREAD_NAME: &'static str = "";
pub const DEFAULT_SESSION_TOKEN: &'static str = "";

/// Writes headers and messages in the binary protocol.
pub struct BinaryEncoder {}

impl BinaryEncoder {
    /// Appends the encoding of `header`.
    pub fn encode_header(buf: &mut Vec<u8>, header: &Header)
        requires
            header_fits(*header),
        ensures
            final(buf)@ == old(buf)@ + header_bytes(*header),
    {
        proof {
            reveal_strlit("");
            reveal_strlit("0");
            assert(is_ascii_chars(DEFAULT_THREAD_ID@));
        }
        let ghost start = buf@;
        let ghost h = *header;
        let ghost s = wire_str(DEFAULT_SESSION_TOKEN);
        Self::write_version(buf, consts::BINARY_PROTOCOL);
        Self::write_string(buf, header.get_domain());
        Self::write_string(buf, header.get_hostname());
        Self::write_string(buf, header.get_ip());
        let ghost mid = buf@;
        Self::write_string(buf, DEFAULT_THREAD_GROUP_NAME);
        Self::write_string(buf, DEFAULT_THREAD_ID);
        Self::write_string(buf, DEFAULT_THREAD_NAME);
        Self::write_string(buf, header.get_message_id());
        Self::write_string(buf, header.get_parent_message_id());
        Self::write_string(buf, header.get_root_message_id());
        Self::write_string(buf, DEFAULT_SESSION_TOKEN);
        proof {
            let a = consts::BINARY_PROTOCOL.spec_bytes();
            let d = wire_bytes(h.domain().spec_bytes());
            let ho = wire_bytes(h.hostname().spec_bytes());
            let ip = wire_bytes(h.ip().spec_bytes());
            assert(mid =~= start + a + d + ho + ip);
            let rest = wire_str(DEFAULT_THREAD_GROUP_NAME) + (wire_str(DEFAULT_THREAD_ID) + (wire_str(
                DEFAULT_THREAD_NAME,
            ) + (wire_bytes(string_bytes(h.message_id())) + (wire_bytes(
                h.parent_message_id().spec_bytes(),
            ) + (wire_bytes(h.root_message_id().spec_bytes()) + s)))));
            assert(buf@ =~= mid + rest);
            assert(start + header_bytes(h) =~= start + a + d + ho + ip + rest);
        }
    }

    /// Appends the base-128 encoding of a non-negative `i`.
    pub fn write_i64(buf: &mut Vec<u8>, i: i64)
        requires
            i >= 0,
        ensures
            final(buf)@ == old(buf)@ + varint(i as nat),
    {
        let mut x = i;
        loop
            invariant
                x >= 0,
                i >= 0,
                buf@ + varint(x as nat) == old(buf)@ + varint(i as nat),
            decreases x,
        {
            if x & !0x7F == 0 {
                assert(x & !0x7Fi64 == 0 <==> x < 128) by (bit_vector)
                    requires
                        x >= 0,
                ;
                let ghost prev = buf@;
                buffer::put_u8(buf, x as u8);
                assert(buf@ =~= prev + varint(x as nat));
                return;
            } else {
                assert(x & !0x7Fi64 == 0 <==> x < 128) by (bit_vector)
                    requires
                        x >= 0,
                ;
                assert((x & 0x7F | 0x80) == x % 128 + 128 && x >> 7 == x / 128) by (bit_vector)
                    requires
                        x >= 0,
                ;
                let ghost prev = buf@;
                let ghost old_x = x;
                buffer::put_u8(buf, (x & 0x7F | 0x80) as u8);
                x >>= 7;
                assert(varint(old_x as nat) =~= seq![(old_x % 128 + 128) as u8] + varint(x as nat));
                assert(buf@ + varint(x as nat) =~= prev + varint(old_x as nat));
            }
        }
    }

    /// Appends `s` with its length in front.
    pub fn write_string(buf: &mut Vec<u8>, s: &str)
        requires
            fits_wire(s),
        ensures
            final(buf)@ == old(buf)@ + wire_str(s),
    {
        let ghost start = buf@;
        let bytes = s.as_bytes();
        if bytes.len() == 0 {
            Self::write_i64(buf, 0 as i64);
            assert(buf@ =~= start + wire_str(s));
        } else {
            Self::write_i64(buf, bytes.len() as i64);
            buffer::put(buf, bytes);
            assert(buf@ =~= start + wire_str(s));
        }
    }

    /// Appends the time, type and name of a message.
    pub fn encode_message_start(buf: &mut Vec<u8>, message: &MessageData)
        requires
            message_fits(*message),
        ensures
            final(buf)@ == old(buf)@ + message_start_bytes(*message),
    {
        let ghost start = buf@;
        Self::write_i64(buf, message.get_time());
        Self::write_string(buf, message.get_type().as_str());
        Self::write_string(buf, message.get_name().as_str());
        assert(buf@ =~= start + message_start_bytes(*message));
    }

    /// Appends the status and data of a message.
    pub fn encode_message_end(buf: &mut Vec<u8>, message: &MessageData)
        requires
            message_end_fits(*message),
        ensures
            final(buf)@ == old(buf)@ + message_end_bytes(*message),
    {
        let ghost start = buf@;
        Self::write_string(buf, message.get_status());
        if message.get_data().len() == 0 {
            Self::write_i64(buf, 0 as i64);
            assert(message.data@ =~= Seq::<u8>::empty());
        } else {
            Self::write_i64(buf, message.get_data().len() as i64);
            buffer::put_slice(buf, message.get_data().as_slice());
        }
        assert(buf@ =~= start + message_end_bytes(*message));
    }

    /// Appends a whole message after the byte `leader` that marks its kind.
    pub fn encode_message_with_leader(buf: &mut Vec<u8>, message: &MessageData, leader: u8)
        requires
            message_fits(*message),
        ensures
            final(buf)@ == old(buf)@ + seq![leader] + message_start_bytes(*message)
                + message_end_bytes(*message),
    {
        let ghost start = buf@;
        buffer::put_u8(buf, leader);
        Self::encode_message_start(buf, message);
        Self::encode_message_end(buf, message);
        assert(buf@ =~= start + seq![leader] + message_start_bytes(*message) + message_end_bytes(
            *message,
        ));
    }

    /// Appends the bytes of the protocol version `s`, without a length.
    pub fn write_version(buf: &mut Vec<u8>, s: &str)
        ensures
            final(buf)@ == old(buf)@ + s.spec_bytes(),
    {
        buffer::put(buf, s.as_bytes());
    }
}

} // verus!
