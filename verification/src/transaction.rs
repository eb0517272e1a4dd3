//! Transactions: messages that span a duration and hold child messages.
use vstd::prelude::*;
use crate::consts;
use crate::buffer;
use crate::encoder::{
    message_end_bytes, message_fits, message_start_bytes, string_bytes, varint, wire_bytes,
    wire_str, BinaryEncoder,
};
use vstd::string::StringSliceAdditionalSpecFns;
use crate::message::{Message, MessageData};

verus! {

/// Type id of a `DefaultTransaction`.
pub const DEFAULT_TRANSACTION_TYPE_ID: &'static str = "DefaultTransaction";
/// Type id of a `DefaultForkedTransaction`.
pub const DEFAULT_FORKED_TRANSACTION_TYPE_ID: &'static str = "DefaultForkedTransaction";
/// Type id of a `NullTransaction`.
pub const NULL_TRANSACTION_TYPE_ID: &'static str = "NullTransaction";

/// A transaction, as the message tree of a thread holds it.
pub trait Transaction {
    /// The type id that `get_type_id` returns.
    spec fn type_id(&self) -> &'static str;

    fn get_type_id(&self) -> (r: &'static str)
        ensures
            r == self.type_id(),
    ;

    /// Whether this kind of transaction takes children.
    spec fn accepts_children(&self) -> bool;

    /// Makes `message` a child of this transaction.
    fn add_children(&mut self, message: Message)
        requires
            old(self).accepts_children(),
    ;
}

/// A transaction that was forked off into another thread.
pub trait ForkedTransaction: Transaction {
}

/// The kinds of transaction.
#[derive(PartialEq, Eq, Structural, Clone, Copy, Debug)]
pub enum TransactionKind {
    Default,
    DefaultForked,
    Null,
}

impl TransactionKind {
    pub open spec fn type_id(self) -> &'static str {
        match self {
            TransactionKind::Default => DEFAULT_TRANSACTION_TYPE_ID,
            TransactionKind::DefaultForked => DEFAULT_FORKED_TRANSACTION_TYPE_ID,
            TransactionKind::Null => NULL_TRANSACTION_TYPE_ID,
        }
    }

    pub fn get_type_id(&self) -> (r: &'static str)
        ensures
            r == self.type_id(),
    {
        match self {
            TransactionKind::Default => DEFAULT_TRANSACTION_TYPE_ID,
            TransactionKind::DefaultForked => DEFAULT_FORKED_TRANSACTION_TYPE_ID,
            TransactionKind::Null => NULL_TRANSACTION_TYPE_ID,
        }
    }
}

/// A transaction that records its children.
pub struct DefaultTransaction {
    message_data: MessageData,
    duration_in_millis: i64,
    children: Vec<Message>,
}

impl DefaultTransaction {
    pub closed spec fn data(&self) -> MessageData {
        self.message_data
    }

    pub closed spec fn duration(&self) -> i64 {
        self.duration_in_millis
    }

    pub closed spec fn children(&self) -> Seq<Message> {
        self.children@
    }

    /// An unnamed transaction with no children.
    pub fn new() -> (r: Self)
        ensures
            r.type_id() == DEFAULT_TRANSACTION_TYPE_ID,
            r.data().m_type@ == Seq::<char>::empty(),
            r.data().name@ == Seq::<char>::empty(),
            r.data().status == consts::CAT_SUCCESS,
            r.data().data@ == Seq::<u8>::empty(),
            r.data().time == 0,
            r.duration() == 0,
            r.children() == Seq::<Message>::empty(),
    {
        DefaultTransaction {
            message_data: MessageData::new(String::new(), String::new(), 0),
            duration_in_millis: 0,
            children: Vec::new(),
        }
    }

    /// A transaction of the given type and name, started at `time`.
    pub fn with_name(message_type: String, name: String, time: i64) -> (r: Self)
        ensures
            r.type_id() == DEFAULT_TRANSACTION_TYPE_ID,
            r.data().m_type == message_type,
            r.data().name == name,
            r.data().status == consts::CAT_SUCCESS,
            r.data().data@ == Seq::<u8>::empty(),
            r.data().time == time,
            r.duration() == 0,
            r.children() == Seq::<Message>::empty(),
    {
        DefaultTransaction {
            message_data: MessageData::new(message_type, name, time),
            duration_in_millis: 0,
            children: Vec::new(),
        }
    }

    pub fn message_data(&self) -> (r: &MessageData)
        ensures
            *r == self.data(),
    {
        &self.message_data
    }

    pub fn get_type(&self) -> (r: &String)
        ensures
            r == self.data().m_type,
    {
        self.message_data.get_type()
    }

    pub fn get_name(&self) -> (r: &String)
        ensures
            r == self.data().name,
    {
        self.message_data.get_name()
    }

    pub fn get_status(&self) -> (r: &'static str)
        ensures
            r == self.data().status,
    {
        self.message_data.get_status()
    }

    /// Duration of the transaction, in milliseconds.
    pub fn get_duration(&self) -> (r: i64)
        ensures
            r == self.duration(),
    {
        self.duration_in_millis
    }

    pub fn get_children(&self) -> (r: &Vec<Message>)
        ensures
            r@ == self.children(),
    {
        &self.children
    }

    /// Replaces the data.
    pub fn set_data(&mut self, data: Vec<u8>)
        ensures
            final(self).data().data@ == data@,
            final(self).data().m_type == old(self).data().m_type,
            final(self).data().name == old(self).data().name,
            final(self).data().status == old(self).data().status,
            final(self).data().time == old(self).data().time,
            final(self).duration() == old(self).duration(),
            final(self).children() == old(self).children(),
    {
        self.message_data.set_data(data);
    }

    /// Replaces the status.
    pub fn set_status(&mut self, status: &'static str)
        ensures
            final(self).data().status == status,
            final(self).data().data@ == old(self).data().data@,
            final(self).data().m_type == old(self).data().m_type,
            final(self).data().name == old(self).data().name,
            final(self).data().time == old(self).data().time,
            final(self).duration() == old(self).duration(),
            final(self).children() == old(self).children(),
    {
        self.message_data.set_status(status);
    }

    /// Records how long the transaction took, in milliseconds.
    pub fn set_duration_in_millis(&mut self, duration: i64)
        ensures
            final(self).duration() == duration,
            final(self).data() == old(self).data(),
            final(self).children() == old(self).children(),
    {
        self.duration_in_millis = duration;
    }
}

impl Transaction for DefaultTransaction {
    open spec fn type_id(&self) -> &'static str {
        DEFAULT_TRANSACTION_TYPE_ID
    }

    open spec fn accepts_children(&self) -> bool {
        true
    }

    fn get_type_id(&self) -> (r: &'static str) {
        DEFAULT_TRANSACTION_TYPE_ID
    }

    fn add_children(&mut self, message: Message)
        ensures
            final(self).children() == old(self).children().push(message),
            final(self).data() == old(self).data(),
            final(self).duration() == old(self).duration(),
    {
        self.children.push(message);
    }
}

/// A transaction that records nothing, used when messages are disabled.
pub struct NullTransaction {}

impl Transaction for NullTransaction {
    open spec fn type_id(&self) -> &'static str {
        NULL_TRANSACTION_TYPE_ID
    }

    open spec fn accepts_children(&self) -> bool {
        true
    }

    fn get_type_id(&self) -> (r: &'static str) {
        NULL_TRANSACTION_TYPE_ID
    }

    fn add_children(&mut self, message: Message) {
    }
}

/// A transaction forked off into another thread.
pub struct DefaultForkedTransaction {}

impl Transaction for DefaultForkedTransaction {
    open spec fn type_id(&self) -> &'static str {
        DEFAULT_FORKED_TRANSACTION_TYPE_ID
    }

    /// A forked transaction takes no children: they belong to the
    /// transaction it was forked from.
    open spec fn accepts_children(&self) -> bool {
        false
    }

    fn get_type_id(&self) -> (r: &'static str) {
        DEFAULT_FORKED_TRANSACTION_TYPE_ID
    }

    /// Never called: a forked transaction accepts no children, and the
    /// trait's `requires` rules the call out.
    fn add_children(&mut self, message: Message) {
    }
}

impl ForkedTransaction for DefaultForkedTransaction {
}

/// The encoding of a message tree. A transaction is `t`, its time, type and
/// name, its children in order, `T`, its status and data, and its duration
/// in microseconds; an event is `H` and a metric `M`, each followed by its
/// time, type, name, status and data.
pub open spec fn message_bytes(m: Message) -> Seq<u8>
    decreases m,
{
    match m {
        Message::Transaction(t) => seq![116u8] + message_start_bytes(t.data()) + children_bytes(
            t.children(),
        ) + seq![84u8] + message_end_bytes(t.data()) + varint((t.duration() * 1000) as nat),
        Message::Event(e) => seq![72u8] + message_start_bytes(e@) + message_end_bytes(e@),
        Message::Metric(x) => seq![77u8] + message_start_bytes(x@) + message_end_bytes(x@),
    }
}

/// The encodings of the messages `s`, one after the other.
pub open spec fn children_bytes(s: Seq<Message>) -> Seq<u8>
    decreases s,
{
    if s.len() == 0 {
        Seq::empty()
    } else {
        children_bytes(s.drop_last()) + message_bytes(s.last())
    }
}

/// How a transaction is encoded, field by field: `t`, its time, its type and
/// name with their lengths in front, the encodings of its children in
/// order, `T`, its status and its data each with its length in front, and
/// its duration in microseconds.
pub proof fn lemma_transaction_encoding(t: DefaultTransaction)
    ensures
        message_bytes(Message::Transaction(Box::new(t))) == seq![116u8] + varint(t.data().time as nat)
            + wire_bytes(string_bytes(t.data().m_type)) + wire_bytes(string_bytes(t.data().name))
            + children_bytes(t.children()) + seq![84u8] + varint(t.data().status.spec_bytes().len())
            + t.data().status.spec_bytes() + varint(t.data().data@.len()) + t.data().data@ + varint(
            (t.duration() * 1000) as nat,
        ),
{
    assert(message_bytes(Message::Transaction(Box::new(t))) =~= seq![116u8] + varint(t.data().time as nat)
        + wire_bytes(string_bytes(t.data().m_type)) + wire_bytes(string_bytes(t.data().name))
        + children_bytes(t.children()) + seq![84u8] + varint(t.data().status.spec_bytes().len())
        + t.data().status.spec_bytes() + varint(t.data().data@.len()) + t.data().data@ + varint(
        (t.duration() * 1000) as nat,
    ));
}

/// How an event and a metric are encoded, field by field: `H` or `M`, the
/// time, the type and name, the status and the data, each text with its
/// length in front.
pub proof fn lemma_event_metric_encoding(e: crate::message::Event, x: crate::message::Metric)
    ensures
        message_bytes(Message::Event(e)) == seq![72u8] + varint(e@.time as nat) + wire_bytes(
            string_bytes(e@.m_type),
        ) + wire_bytes(string_bytes(e@.name)) + varint(e@.status.spec_bytes().len())
            + e@.status.spec_bytes() + varint(e@.data@.len()) + e@.data@,
        message_bytes(Message::Metric(x)) == seq![77u8] + varint(x@.time as nat) + wire_bytes(
            string_bytes(x@.m_type),
        ) + wire_bytes(string_bytes(x@.name)) + varint(x@.status.spec_bytes().len())
            + x@.status.spec_bytes() + varint(x@.data@.len()) + x@.data@,
{
    assert(message_bytes(Message::Event(e)) =~= seq![72u8] + varint(e@.time as nat) + wire_bytes(
        string_bytes(e@.m_type),
    ) + wire_bytes(string_bytes(e@.name)) + varint(e@.status.spec_bytes().len())
        + e@.status.spec_bytes() + varint(e@.data@.len()) + e@.data@);
    assert(message_bytes(Message::Metric(x)) =~= seq![77u8] + varint(x@.time as nat) + wire_bytes(
        string_bytes(x@.m_type),
    ) + wire_bytes(string_bytes(x@.name)) + varint(x@.status.spec_bytes().len())
        + x@.status.spec_bytes() + varint(x@.data@.len()) + x@.data@);
}

/// A transaction's data is part of its encoding: two transactions alike in
/// time, type, name, children, status and duration but with different data
/// encode differently.
pub proof fn lemma_transaction_data_encoded(t1: DefaultTransaction, t2: DefaultTransaction)
    requires
        t1.data().time == t2.data().time,
        t1.data().m_type@ == t2.data().m_type@,
        t1.data().name@ == t2.data().name@,
        t1.data().status == t2.data().status,
        t1.children() == t2.children(),
        t1.duration() == t2.duration(),
        t1.data().data@ != t2.data().data@,
    ensures
        message_bytes(Message::Transaction(Box::new(t1))) != message_bytes(Message::Transaction(Box::new(t2))),
{
    let p = seq![116u8] + message_start_bytes(t1.data()) + children_bytes(t1.children()) + seq![84u8]
        + wire_str(t1.data().status);
    let v = varint((t1.duration() * 1000) as nat);
    let r1 = wire_bytes(t1.data().data@) + v;
    let r2 = wire_bytes(t2.data().data@) + v;
    assert(message_start_bytes(t1.data()) == message_start_bytes(t2.data()));
    assert(message_bytes(Message::Transaction(Box::new(t1))) =~= p + r1);
    assert(message_bytes(Message::Transaction(Box::new(t2))) =~= p + r2);
    if message_bytes(Message::Transaction(Box::new(t1))) == message_bytes(Message::Transaction(Box::new(t2))) {
        assert(r1 =~= (p + r1).skip(p.len() as int));
        assert(r2 =~= (p + r2).skip(p.len() as int));
        crate::encoder::lemma_wire_bytes_prefix_free(t1.data().data@, t2.data().data@, v, v);
    }
}

/// Every message of the tree fits the encoding: times not negative, lengths
/// within the length prefix, and transaction durations whose microseconds
/// fit an `i64` and are not negative.
pub open spec fn message_encodable(m: Message) -> bool
    decreases m,
{
    match m {
        Message::Transaction(t) => {
            &&& message_fits(t.data())
            &&& 0 <= t.duration() * 1000 <= i64::MAX
            &&& children_encodable(t.children())
        },
        Message::Event(e) => message_fits(e@),
        Message::Metric(x) => message_fits(x@),
    }
}

/// Every message of `s` can be encoded.
pub open spec fn children_encodable(s: Seq<Message>) -> bool
    decreases s,
{
    if s.len() == 0 {
        true
    } else {
        children_encodable(s.drop_last()) && message_encodable(s.last())
    }
}

/// Each message of an encodable sequence is encodable, and so is each start
/// of the sequence.
proof fn lemma_children_encodable(s: Seq<Message>, i: int)
    requires
        children_encodable(s),
        0 <= i < s.len(),
    ensures
        message_encodable(s[i]),
        children_encodable(s.take(i)),
    decreases s.len(),
{
    if i < s.len() - 1 {
        assert(s.drop_last()[i] == s[i]);
        assert(s.drop_last().take(i) =~= s.take(i));
        lemma_children_encodable(s.drop_last(), i);
    } else {
        assert(s.drop_last() =~= s.take(i));
    }
}

impl DefaultTransaction {
    /// The duration in microseconds.
    pub fn get_duration_in_micros(&self) -> (r: i64)
        requires
            i64::MIN <= self.duration() * 1000 <= i64::MAX,
        ensures
            r == self.duration() * 1000,
    {
        self.duration_in_millis * 1000
    }
}

impl BinaryEncoder {
    /// Appends the encoding of the message tree `message`.
    pub fn encode_message(buf: &mut Vec<u8>, message: &Message)
        requires
            message_encodable(*message),
        ensures
            final(buf)@ == old(buf)@ + message_bytes(*message),
        decreases message,
    {
        let ghost start = buf@;
        match message {
            Message::Transaction(transaction) => {
                buffer::put_u8(buf, 116);
                Self::encode_message_start(buf, transaction.message_data());
                let children = transaction.get_children();
                let ghost head = buf@;
                let mut i: usize = 0;
                assert(children@.take(0) =~= Seq::<Message>::empty());
                #[verifier::loop_isolation(false)]
                while i < children.len()
                    invariant
                        i <= children@.len(),
                        children@ == transaction.children(),
                        children_encodable(children@),
                        buf@ == head + children_bytes(children@.take(i as int)),
                    decreases children@.len() - i,
                {
                    proof {
                        lemma_children_encodable(children@, i as int);
                        assert(decreases_to!(*message => *transaction));
                        assert(decreases_to!(*transaction => transaction.children));
                        assert(decreases_to!(transaction.children => transaction.children@));
                        assert(decreases_to!(transaction.children@ => transaction.children@[i as int]));
                    }
                    Self::encode_message(buf, &children[i]);
                    proof {
                        let t = children@.take(i + 1);
                        assert(t.drop_last() =~= children@.take(i as int));
                        assert(t.last() == children@[i as int]);
                    }
                    i = i + 1;
                }
                assert(children@.take(children@.len() as int) =~= children@);
                buffer::put_u8(buf, 84);
                Self::encode_message_end(buf, transaction.message_data());
                Self::write_i64(buf, transaction.get_duration_in_micros());
                assert(buf@ =~= start + message_bytes(*message));
            },
            Message::Event(event) => {
                Self::encode_message_with_leader(buf, event.message_data(), 72);
                assert(buf@ =~= start + message_bytes(*message));
            },
            Message::Metric(metric) => {
                Self::encode_message_with_leader(buf, metric.message_data(), 77);
                assert(buf@ =~= start + message_bytes(*message));
            },
        }
    }
}

/// Whether the fields of a message fit the encoding.
pub fn message_data_fits(m: &MessageData) -> (r: bool)
    ensures
        r == message_fits(*m),
{
    let limit: u64 = 0x7fff_ffff_ffff_ffff;
    m.time >= 0 && (m.m_type.as_str().as_bytes().len() as u64) <= limit && (m.name.as_str().as_bytes().len() as u64) <= limit
        && (m.status.as_bytes().len() as u64) <= limit && (m.data.len() as u64) <= limit
}

/// Whether every message of the tree `message` fits the encoding.
pub fn message_is_encodable(message: &Message) -> (r: bool)
    ensures
        r == message_encodable(*message),
    decreases message,
{
    match message {
        Message::Transaction(transaction) => {
            if !message_data_fits(transaction.message_data()) {
                return false;
            }
            let millis = transaction.get_duration();
            if millis < 0 || millis > 0x7fff_ffff_ffff_ffff / 1000 {
                return false;
            }
            let children = transaction.get_children();
            let mut i: usize = 0;
            assert(children@.take(0) =~= Seq::<Message>::empty());
            #[verifier::loop_isolation(false)]
            while i < children.len()
                invariant
                    i <= children@.len(),
                    children@ == transaction.children(),
                    children_encodable(children@.take(i as int)),
                decreases children@.len() - i,
            {
                proof {
                    assert(decreases_to!(*message => *transaction));
                    assert(decreases_to!(*transaction => transaction.children));
                    assert(decreases_to!(transaction.children => transaction.children@));
                    assert(decreases_to!(transaction.children@ => transaction.children@[i as int]));
                }
                let ok = message_is_encodable(&children[i]);
                proof {
                    let t = children@.take(i + 1);
                    assert(t.drop_last() =~= children@.take(i as int));
                    assert(t.last() == children@[i as int]);
                }
                if !ok {
                    proof {
                        if children_encodable(children@) {
                            lemma_children_encodable(children@, i as int);
                        }
                    }
                    return false;
                }
                i = i + 1;
            }
            assert(children@.take(children@.len() as int) =~= children@);
            true
        },
        Message::Event(event) => message_data_fits(event.message_data()),
        Message::Metric(metric) => message_data_fits(metric.message_data()),
    }
}

} // verus!
