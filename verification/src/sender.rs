//! What the sender decides and builds: message ids, the queue a message goes
//! to, and the length-prefixed frame of a header and an encoded message.
use vstd::prelude::*;
use vstd::string::StringSliceAdditionalSpecFns;
use vstd::utf8::{encode_utf8, valid_utf8, valid_utf8_concat, encode_utf8_valid_utf8};
use vstd::wrapping::u64_specs::wrapping_add;
use crate::buffer::{self, be_bytes_u32};
use crate::config::Config;
use crate::consts;
use crate::decimal::{decimal_nat, lemma_decimal_int_ascii, lemma_decimal_int_len, push_decimal_u64};
use crate::encoder::{BinaryEncoder, header_fields_bytes, string_bytes};
use crate::header::Header;
use crate::keyed::append_bytes;
use crate::message::status_is_success;
use crate::text::{lemma_ascii_utf8, utf8_to_string};
use crate::message::Message;
use crate::transaction::{message_bytes, message_encodable, DefaultTransaction};

verus! {

/// Hands out message ids: a prefix followed by a counter in decimal.
pub struct MessageManager {
    index: u64,
    message_id_prefix: String,
}

impl MessageManager {
    pub closed spec fn index(&self) -> u64 {
        self.index
    }

    pub closed spec fn prefix(&self) -> Seq<char> {
        self.message_id_prefix@
    }

    /// Counting from zero, with no prefix.
    pub fn new() -> (r: MessageManager)
        ensures
            r.index() == 0,
            r.prefix() == Seq::<char>::empty(),
    {
        MessageManager { index: 0, message_id_prefix: String::new() }
    }

    /// The next id: the prefix and the current count in decimal; the count
    /// then goes up by one, wrapping around as an atomic addition does.
    pub fn next_id(&mut self) -> (r: String)
        ensures
            string_bytes(r) == encode_utf8(old(self).prefix()) + decimal_nat(old(self).index() as nat),
            final(self).index() == wrapping_add(old(self).index(), 1),
            final(self).prefix() == old(self).prefix(),
    {
        let new_index = self.index;
        self.index = self.index.wrapping_add(1);
        let mut bytes: Vec<u8> = Vec::new();
        append_bytes(&mut bytes, self.message_id_prefix.as_str().as_bytes());
        push_decimal_u64(&mut bytes, new_index);
        proof {
            let p = encode_utf8(self.message_id_prefix@);
            let d = decimal_nat(new_index as nat);
            assert(bytes@ =~= p + d);
            lemma_decimal_int_ascii(new_index as int);
            lemma_ascii_utf8(d);
            encode_utf8_valid_utf8(self.message_id_prefix@);
            valid_utf8_concat(p, d);
        }
        utf8_to_string(bytes)
    }
}

/// Two successive ids differ: the counter in them differs, and so do their
/// decimal texts.
pub proof fn lemma_successive_ids_differ(prefix: Seq<char>, index: u64)
    ensures
        encode_utf8(prefix) + decimal_nat(index as nat) != encode_utf8(prefix) + decimal_nat(
            wrapping_add(index, 1) as nat,
        ),
{
    let p = encode_utf8(prefix);
    let a = decimal_nat(index as nat);
    let b = decimal_nat(wrapping_add(index, 1) as nat);
    if p + a == p + b {
        assert(a =~= (p + a).skip(p.len() as int));
        assert(b =~= (p + b).skip(p.len() as int));
        crate::decimal::lemma_decimal_nat_injective(index as nat, wrapping_add(index, 1) as nat);
    }
}

/// The queue a message goes to.
#[derive(PartialEq, Eq, Structural, Clone, Copy, Debug)]
pub enum Priority {
    High,
    Normal,
}

/// A failed transaction goes to the high-priority queue, any other to the
/// normal one.
pub fn transaction_priority(transaction: &DefaultTransaction) -> (r: Priority)
    ensures
        r == (if transaction.data().status@ == consts::CAT_SUCCESS@ {
            Priority::Normal
        } else {
            Priority::High
        }),
{
    if !status_is_success(transaction.get_status()) {
        Priority::High
    } else {
        Priority::Normal
    }
}

/// A frame: the length of the rest as four big-endian bytes (modulo 2^32),
/// then the rest.
pub open spec fn frame_bytes(body: Seq<u8>) -> Seq<u8> {
    be_bytes_u32((body.len() % 0x1_0000_0000) as u32) + body
}

/// The number that four big-endian bytes spell.
pub open spec fn be_u32_value(b: Seq<u8>) -> nat {
    (b[0] as nat) * 0x100_0000 + (b[1] as nat) * 0x1_0000 + (b[2] as nat) * 0x100 + (b[3] as nat)
}

/// The first four bytes of a frame below 4 GiB spell the length of the rest,
/// and the rest is the body.
pub proof fn lemma_frame_length(body: Seq<u8>)
    requires
        body.len() < 0x1_0000_0000,
    ensures
        frame_bytes(body).len() == body.len() + 4,
        be_u32_value(frame_bytes(body).take(4)) == body.len(),
        frame_bytes(body).skip(4) == body,
{
    let n = body.len() as u32;
    let f = frame_bytes(body);
    assert(f.skip(4) =~= body);
    let b0 = (n / 0x100_0000) as nat;
    let b1 = ((n / 0x1_0000) % 0x100) as nat;
    let b2 = ((n / 0x100) % 0x100) as nat;
    let b3 = (n % 0x100) as nat;
    assert(b0 * 0x100_0000 + b1 * 0x1_0000 + b2 * 0x100 + b3 == n as nat) by (nonlinear_arith)
        requires
            b0 == n as nat / 0x100_0000,
            b1 == (n as nat / 0x1_0000) % 0x100,
            b2 == (n as nat / 0x100) % 0x100,
            b3 == n as nat % 0x100,
            n < 0x1_0000_0000,
    ;
}

/// Builds the frames of message trees.
pub struct CatMessageSender {
    manager: MessageManager,
    buf: Vec<u8>,
    config: (String, String, String),
}

impl CatMessageSender {
    pub closed spec fn next_index(&self) -> u64 {
        self.manager.index()
    }

    pub closed spec fn buffer(&self) -> Seq<u8> {
        self.buf@
    }

    pub closed spec fn domain(&self) -> Seq<char> {
        self.config.0@
    }

    pub closed spec fn hostname(&self) -> Seq<char> {
        self.config.1@
    }

    pub closed spec fn ip(&self) -> Seq<char> {
        self.config.2@
    }

    /// Message ids have no prefix: they are the counter in decimal.
    #[verifier::type_invariant]
    spec fn inv(self) -> bool {
        self.manager.prefix() == Seq::<char>::empty()
    }

    /// A sender for the domain, host name and address of `config`.
    pub fn new(config: &Config) -> (r: Self)
        ensures
            r.domain() == config.domain@,
            r.hostname() == config.hostname@,
            r.ip() == config.ip@,
            r.next_index() == 0,
            r.buffer() == Seq::<u8>::empty(),
    {
        CatMessageSender {
            manager: MessageManager::new(),
            buf: Vec::new(),
            config: (
                config.get_domain().clone(),
                config.get_hostname().clone(),
                config.get_ip().clone(),
            ),
        }
    }

    /// The frame last built.
    pub fn get_buffer(&self) -> (r: &Vec<u8>)
        ensures
            r@ == self.buffer(),
    {
        &self.buf
    }

    /// Builds the frame of a message tree in the buffer: the header with the
    /// next message id and the encoded message, behind their length.
    pub fn send(&mut self, message: &Message)
        requires
            message_encodable(*message),
            encode_utf8(old(self).domain()).len() <= i64::MAX,
            encode_utf8(old(self).hostname()).len() <= i64::MAX,
            encode_utf8(old(self).ip()).len() <= i64::MAX,
        ensures
            final(self).buffer() == frame_bytes(
                header_fields_bytes(
                    encode_utf8(old(self).domain()),
                    encode_utf8(old(self).hostname()),
                    encode_utf8(old(self).ip()),
                    decimal_nat(old(self).next_index() as nat),
                    Seq::empty(),
                    Seq::empty(),
                ) + message_bytes(*message),
            ),
            final(self).next_index() == wrapping_add(old(self).next_index(), 1),
            final(self).domain() == old(self).domain(),
            final(self).hostname() == old(self).hostname(),
            final(self).ip() == old(self).ip(),
    {
        proof {
            use_type_invariant(&*self);
        }
        let mut buf: Vec<u8> = Vec::new();
        buffer::put_u32(&mut buf, 0);
        let ghost index = self.manager.index();
        // The id counter is set aside while it counts, and put back after.
        let mut manager = MessageManager::new();
        std::mem::swap(&mut manager, &mut self.manager);
        assert(manager.prefix() == Seq::<char>::empty());
        let next_id = manager.next_id();
        std::mem::swap(&mut manager, &mut self.manager);
        proof {
            reveal_strlit("");
            lemma_decimal_int_len(index as int);
            assert(encode_utf8(Seq::<char>::empty()) =~= Seq::<u8>::empty());
            assert(string_bytes(next_id) =~= decimal_nat(index as nat));
        }
        let header = Header::new(
            self.config.0.as_str(),
            self.config.1.as_str(),
            self.config.2.as_str(),
            next_id,
        );
        BinaryEncoder::encode_header(&mut buf, &header);
        BinaryEncoder::encode_message(&mut buf, message);
        let ghost body = buf@.subrange(4, buf@.len() as int);
        assert(body =~= header_fields_bytes(
            encode_utf8(self.config.0@),
            encode_utf8(self.config.1@),
            encode_utf8(self.config.2@),
            decimal_nat(index as nat),
            Seq::empty(),
            Seq::empty(),
        ) + message_bytes(*message));
        let n: u32 = (((buf.len() - 4) as u64) % 0x1_0000_0000) as u32;
        buf.set(0, (n / 0x100_0000) as u8);
        buf.set(1, ((n / 0x1_0000) % 0x100) as u8);
        buf.set(2, ((n / 0x100) % 0x100) as u8);
        buf.set(3, (n % 0x100) as u8);
        assert(buf@ =~= frame_bytes(body));
        self.buf = buf;
    }
}

} // verus!
