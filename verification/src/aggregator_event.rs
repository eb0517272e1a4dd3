//! Local aggregation of events: per type and name, how many happened and how
//! many of them failed.
use vstd::prelude::*;
use vstd::wrapping::i64_specs::wrapping_add;
use crate::consts;
use crate::decimal::{decimal_int, decimal_nat, push_decimal_i64, push_decimal_u64};
use crate::encoder::string_bytes;
use crate::keyed::{find_key, key_bytes};
use crate::message::{status_is_success, Event, Message, MessageData};
use crate::transaction::{DefaultTransaction, Transaction};

verus! {

/// The figures gathered for one type and name of event.
pub struct EventDataView {
    pub m_type: Seq<char>,
    pub name: Seq<char>,
    pub count: i64,
    pub fail: i64,
}

impl EventDataView {
    /// The figures after one more event that succeeded or not; the counters
    /// wrap around as atomic additions do.
    pub open spec fn add(self, success: bool) -> Self {
        EventDataView {
            m_type: self.m_type,
            name: self.name,
            count: wrapping_add(self.count, 1),
            fail: if success {
                self.fail
            } else {
                wrapping_add(self.fail, 1)
            },
        }
    }
}

/// Figures of one type and name of event.
pub struct EventData {
    m_type: String,
    name: String,
    count: i64,
    fail: i64,
}

impl View for EventData {
    type V = EventDataView;

    closed spec fn view(&self) -> EventDataView {
        EventDataView { m_type: self.m_type@, name: self.name@, count: self.count, fail: self.fail }
    }
}

impl EventData {
    /// No event counted yet.
    pub fn new(m_type: &String, name: &String) -> (r: Self)
        ensures
            r@ == (EventDataView { m_type: m_type@, name: name@, count: 0, fail: 0 }),
    {
        EventData { m_type: m_type.clone(), name: name.clone(), count: 0, fail: 0 }
    }

    pub fn get_type(&self) -> (r: &String)
        ensures
            r@ == self@.m_type,
    {
        &self.m_type
    }

    pub fn get_name(&self) -> (r: &String)
        ensures
            r@ == self@.name,
    {
        &self.name
    }

    pub fn get_count(&self) -> (r: i64)
        ensures
            r == self@.count,
    {
        self.count
    }

    pub fn get_fail(&self) -> (r: i64)
        ensures
            r == self@.fail,
    {
        self.fail
    }

    /// Counts `event`.
    pub fn add(&mut self, event: &Event)
        ensures
            final(self)@ == old(self)@.add(event@.status@ == consts::CAT_SUCCESS@),
    {
        self.count = self.count.wrapping_add(1);
        if !status_is_success(event.get_status()) {
            self.fail = self.fail.wrapping_add(1);
        }
    }
}

/// The key under which an event is aggregated: its type, `,`, its name.
pub open spec fn event_key(m: MessageData) -> Seq<u8> {
    string_bytes(m.m_type) + seq![44u8] + string_bytes(m.name)
}

/// The aggregated figures as pairs of key and figures.
pub open spec fn event_entries_view(v: Seq<(Vec<u8>, EventData)>) -> Seq<(Seq<u8>, EventDataView)> {
    v.map_values(|e: (Vec<u8>, EventData)| (e.0@, e.1@))
}

/// No key occurs twice.
pub open spec fn event_keys_distinct(s: Seq<(Seq<u8>, EventDataView)>) -> bool {
    forall|i: int, j: int| 0 <= i < j < s.len() ==> s[i].0 != s[j].0
}

/// The figures after counting `e`: the entry of its key is updated, or a new
/// entry for it is added at the end.
pub open spec fn merge_event(s: Seq<(Seq<u8>, EventDataView)>, e: MessageData) -> Seq<
    (Seq<u8>, EventDataView),
> {
    let key = event_key(e);
    let success = e.status@ == consts::CAT_SUCCESS@;
    if exists|j: int| 0 <= j < s.len() && s[j].0 == key {
        let j = choose|j: int| 0 <= j < s.len() && s[j].0 == key;
        s.update(j, (key, s[j].1.add(success)))
    } else {
        s.push((key, EventDataView { m_type: e.m_type@, name: e.name@, count: 0, fail: 0 }.add(success)))
    }
}

/// Gathers the figures of the events it is handed, per type and name.
pub struct EventAggregator {
    data_map: Vec<(Vec<u8>, EventData)>,
}

impl View for EventAggregator {
    type V = Seq<(Seq<u8>, EventDataView)>;

    closed spec fn view(&self) -> Seq<(Seq<u8>, EventDataView)> {
        event_entries_view(self.data_map@)
    }
}

impl EventAggregator {
    /// No key occurs twice.
    #[verifier::type_invariant]
    spec fn inv(self) -> bool {
        event_keys_distinct(event_entries_view(self.data_map@))
    }

    /// Nothing gathered yet.
    pub fn new() -> (r: Self)
        ensures
            r@ == Seq::<(Seq<u8>, EventDataView)>::empty(),
    {
        let r = EventAggregator { data_map: Vec::new() };
        assert(r@ =~= Seq::<(Seq<u8>, EventDataView)>::empty());
        r
    }

    /// Counts `event` under its type and name.
    pub fn put_or_merge(&mut self, event: &Event)
        ensures
            final(self)@ == merge_event(old(self)@, event@),
            event_keys_distinct(final(self)@),
    {
        proof {
            use_type_invariant(&*self);
        }
        let key = key_bytes(event.get_type(), 44, event.get_name());
        let ghost before = self@;
        let mut entries: Vec<(Vec<u8>, EventData)> = Vec::new();
        std::mem::swap(&mut entries, &mut self.data_map);
        assert(event_entries_view(entries@) == before);
        match find_key(&entries, &key) {
            Some(i) => {
                let ghost old_map = entries@;
                let (k, mut data) = entries.remove(i);
                assert(before[i as int].1 == data@);
                data.add(event);
                entries.insert(i, (k, data));
                proof {
                    let c = choose|j: int| 0 <= j < before.len() && before[j].0 == key@;
                    assert(c == i as int);
                    assert(entries@ =~= old_map.update(i as int, (k, data)));
                    assert(event_entries_view(entries@) =~= merge_event(before, event@));
                }
            },
            None => {
                let mut data = EventData::new(event.get_type(), event.get_name());
                data.add(event);
                entries.push((key, data));
                assert(event_entries_view(entries@) =~= merge_event(before, event@));
            },
        }
        assert(event_keys_distinct(event_entries_view(entries@)));
        std::mem::swap(&mut entries, &mut self.data_map);
    }

    /// The figures gathered so far, with their keys, in the order the keys
    /// first occurred.
    pub fn get_data_map(&self) -> (r: &Vec<(Vec<u8>, EventData)>)
        ensures
            event_entries_view(r@) == self@,
    {
        &self.data_map
    }

    /// Takes the figures gathered so far and starts afresh.
    pub fn collect(&mut self) -> (r: Vec<(Vec<u8>, EventData)>)
        ensures
            event_entries_view(r@) == old(self)@,
            final(self)@ == Seq::<(Seq<u8>, EventDataView)>::empty(),
    {
        let mut data: Vec<(Vec<u8>, EventData)> = Vec::new();
        std::mem::swap(&mut data, &mut self.data_map);
        assert(self@ =~= Seq::<(Seq<u8>, EventDataView)>::empty());
        data
    }
}

/// The data of an aggregated event, as `format!("{}{}{}{}", BATCH_FLAG,
/// count, BATCH_FLAG, fail)` writes it: the flag byte printed as the number
/// 64, the count, the number 64 again, the failures.
pub open spec fn event_batch_bytes(d: EventDataView) -> Seq<u8> {
    decimal_nat(consts::BATCH_FLAG as nat) + decimal_int(d.count as int) + decimal_nat(
        consts::BATCH_FLAG as nat,
    ) + decimal_int(d.fail as int)
}

/// The batch data tells the failures apart: figures with the same count
/// have the same batch data exactly when they have the same number of
/// failures.
pub proof fn lemma_event_batch_bytes_failures(d1: EventDataView, d2: EventDataView)
    requires
        d1.count == d2.count,
    ensures
        event_batch_bytes(d1) == event_batch_bytes(d2) <==> d1.fail == d2.fail,
{
    let p = decimal_nat(consts::BATCH_FLAG as nat) + decimal_int(d1.count as int) + decimal_nat(
        consts::BATCH_FLAG as nat,
    );
    let f1 = decimal_int(d1.fail as int);
    let f2 = decimal_int(d2.fail as int);
    if event_batch_bytes(d1) == event_batch_bytes(d2) {
        assert(f1 =~= event_batch_bytes(d1).skip(p.len() as int));
        assert(f2 =~= event_batch_bytes(d2).skip(p.len() as int));
        crate::decimal::lemma_decimal_int_injective(d1.fail as int, d2.fail as int);
    }
}

/// The batch data tells the counts apart: figures with the same number of
/// failures have the same batch data exactly when they have the same count.
pub proof fn lemma_event_batch_bytes_counts(d1: EventDataView, d2: EventDataView)
    requires
        d1.fail == d2.fail,
    ensures
        event_batch_bytes(d1) == event_batch_bytes(d2) <==> d1.count == d2.count,
{
    let flag = decimal_nat(consts::BATCH_FLAG as nat);
    let q = flag + decimal_int(d1.fail as int);
    let c1 = decimal_int(d1.count as int);
    let c2 = decimal_int(d2.count as int);
    if event_batch_bytes(d1) == event_batch_bytes(d2) {
        assert(event_batch_bytes(d1) =~= flag + c1 + q);
        assert(event_batch_bytes(d2) =~= flag + c2 + q);
        let n = event_batch_bytes(d1).len() - q.len();
        assert(flag + c1 =~= event_batch_bytes(d1).take(n));
        assert(flag + c2 =~= event_batch_bytes(d2).take(n));
        assert(c1 =~= (flag + c1).skip(flag.len() as int));
        assert(c2 =~= (flag + c2).skip(flag.len() as int));
        crate::decimal::lemma_decimal_int_injective(d1.count as int, d2.count as int);
    }
}

/// Encodes the figures of an event type as the data of its report event.
pub fn event_batch_data(d: &EventData) -> (r: Vec<u8>)
    ensures
        r@ == event_batch_bytes(d@),
{
    let mut buf: Vec<u8> = Vec::new();
    push_decimal_u64(&mut buf, consts::BATCH_FLAG as u64);
    push_decimal_i64(&mut buf, d.count);
    push_decimal_u64(&mut buf, consts::BATCH_FLAG as u64);
    push_decimal_i64(&mut buf, d.fail);
    assert(buf@ =~= event_batch_bytes(d@));
    buf
}

/// A child of the event report that stands for the figures `d`.
pub open spec fn event_report_child(m: Message, d: EventDataView, time: i64) -> bool {
    match m {
        Message::Event(e) => {
            &&& e@.m_type@ == d.m_type
            &&& e@.name@ == d.name
            &&& e@.status == consts::CAT_SUCCESS
            &&& e@.data@ == event_batch_bytes(d)
            &&& e@.time == time
        },
        _ => false,
    }
}

/// The report of gathered event figures: a transaction of type `System` named
/// `TransactionAggregator` whose children are one event per entry, with the
/// entry's type and name and its figures as data.
pub fn event_report(data_map: &Vec<(Vec<u8>, EventData)>, time: i64) -> (r: Option<DefaultTransaction>)
    ensures
        r is None <==> data_map@.len() == 0,
        r matches Some(t) ==> {
            &&& t.data().m_type@ == consts::TYPE_SYSTEM@
            &&& t.data().name@ == consts::NAME_TRANSACTION_AGGREGATOR@
            &&& t.data().status == consts::CAT_SUCCESS
            &&& t.data().data@ == Seq::<u8>::empty()
            &&& t.data().time == time
            &&& t.duration() == 0
            &&& t.children().len() == data_map@.len()
            &&& forall|i: int|
                0 <= i < data_map@.len() ==> event_report_child(t.children()[i], data_map@[i].1@, time)
        },
{
    if data_map.len() == 0 {
        return None;
    }
    let mut transaction = DefaultTransaction::with_name(
        consts::TYPE_SYSTEM.to_owned(),
        consts::NAME_TRANSACTION_AGGREGATOR.to_owned(),
        time,
    );
    let mut i: usize = 0;
    while i < data_map.len()
        invariant
            i <= data_map@.len(),
            transaction.data().m_type@ == consts::TYPE_SYSTEM@,
            transaction.data().name@ == consts::NAME_TRANSACTION_AGGREGATOR@,
            transaction.data().status == consts::CAT_SUCCESS,
            transaction.data().data@ == Seq::<u8>::empty(),
            transaction.data().time == time,
            transaction.duration() == 0,
            transaction.children().len() == i,
            forall|j: int|
                0 <= j < i ==> event_report_child(transaction.children()[j], data_map@[j].1@, time),
        decreases data_map@.len() - i,
    {
        let event_data = &data_map[i].1;
        let mut message_data = MessageData::new(event_data.m_type.clone(), event_data.name.clone(), time);
        message_data.set_data(event_batch_data(event_data));
        transaction.add_children(Message::Event(Event::from_data(message_data)));
        i = i + 1;
    }
    Some(transaction)
}

/// The figures after counting the events `es` one after the other, starting
/// from nothing.
pub open spec fn merge_all_events(es: Seq<MessageData>) -> Seq<(Seq<u8>, EventDataView)>
    decreases es.len(),
{
    if es.len() == 0 {
        Seq::empty()
    } else {
        merge_event(merge_all_events(es.drop_last()), es.last())
    }
}

/// How many events of `es` have the key `key`.
pub open spec fn count_event_key(es: Seq<MessageData>, key: Seq<u8>) -> nat
    decreases es.len(),
{
    if es.len() == 0 {
        0
    } else {
        count_event_key(es.drop_last(), key) + if event_key(es.last()) == key {
            1nat
        } else {
            0nat
        }
    }
}

/// How many events of `es` have the key `key` and did not succeed.
pub open spec fn count_event_failed(es: Seq<MessageData>, key: Seq<u8>) -> nat
    decreases es.len(),
{
    if es.len() == 0 {
        0
    } else {
        count_event_failed(es.drop_last(), key) + if event_key(es.last()) == key
            && es.last().status@ != consts::CAT_SUCCESS@ {
            1nat
        } else {
            0nat
        }
    }
}

proof fn lemma_event_counts_bounded(es: Seq<MessageData>, key: Seq<u8>)
    ensures
        count_event_failed(es, key) <= count_event_key(es, key) <= es.len(),
    decreases es.len(),
{
    if es.len() > 0 {
        lemma_event_counts_bounded(es.drop_last(), key);
    }
}

proof fn lemma_event_count_absent(es: Seq<MessageData>, key: Seq<u8>)
    requires
        forall|i: int| 0 <= i < es.len() ==> event_key(#[trigger] es[i]) != key,
    ensures
        count_event_key(es, key) == 0,
        count_event_failed(es, key) == 0,
    decreases es.len(),
{
    if es.len() > 0 {
        assert forall|i: int| 0 <= i < es.drop_last().len() implies event_key(
            #[trigger] es.drop_last()[i],
        ) != key by {
            assert(es.drop_last()[i] == es[i]);
        }
        lemma_event_count_absent(es.drop_last(), key);
        assert(event_key(es[es.len() - 1]) != key);
    }
}

/// What the event aggregator reports is what it was handed: after counting
/// the events `es` (fewer than `i64::MAX` of them, so no counter wraps
/// around), every entry holds as many events as `es` has with its key and as
/// many failures as `es` has failed events with its key, every event has an
/// entry, and no key has two entries.
pub proof fn lemma_event_aggregation_counts(es: Seq<MessageData>)
    requires
        es.len() < i64::MAX,
    ensures
        forall|j: int|
            0 <= j < merge_all_events(es).len() ==> (#[trigger] merge_all_events(es)[j]).1.count
                == count_event_key(es, merge_all_events(es)[j].0) && merge_all_events(es)[j].1.fail
                == count_event_failed(es, merge_all_events(es)[j].0),
        forall|i: int|
            0 <= i < es.len() ==> exists|j: int|
                0 <= j < merge_all_events(es).len() && merge_all_events(es)[j].0 == event_key(
                    #[trigger] es[i],
                ),
        event_keys_distinct(merge_all_events(es)),
    decreases es.len(),
{
    if es.len() > 0 {
        let rest = es.drop_last();
        let prev = merge_all_events(rest);
        let e = es.last();
        let key = event_key(e);
        let success = e.status@ == consts::CAT_SUCCESS@;
        lemma_event_aggregation_counts(rest);
        let m = merge_all_events(es);
        assert(m == merge_event(prev, e));
        if exists|j: int| 0 <= j < prev.len() && prev[j].0 == key {
            let j0 = choose|j: int| 0 <= j < prev.len() && prev[j].0 == key;
            assert(m == prev.update(j0, (key, prev[j0].1.add(success))));
            lemma_event_counts_bounded(rest, key);
            assert forall|j: int| 0 <= j < m.len() implies (#[trigger] m[j]).1.count == count_event_key(
                es,
                m[j].0,
            ) && m[j].1.fail == count_event_failed(es, m[j].0) by {
                if j != j0 {
                    assert(m[j] == prev[j]);
                    assert(prev[j].0 != key);
                }
            }
            assert forall|i: int| 0 <= i < es.len() implies exists|j: int|
                0 <= j < m.len() && m[j].0 == event_key(#[trigger] es[i]) by {
                if i < rest.len() {
                    assert(rest[i] == es[i]);
                    let j = choose|j: int| 0 <= j < prev.len() && prev[j].0 == event_key(rest[i]);
                    assert(m[j].0 == prev[j].0);
                } else {
                    assert(m[j0].0 == key);
                }
            }
        } else {
            assert(m == prev.push(
                (key, EventDataView { m_type: e.m_type@, name: e.name@, count: 0, fail: 0 }.add(success)),
            ));
            assert forall|i: int| 0 <= i < rest.len() implies event_key(#[trigger] rest[i]) != key by {
                if event_key(rest[i]) == key {
                    let j = choose|j: int| 0 <= j < prev.len() && prev[j].0 == event_key(rest[i]);
                    assert(prev[j].0 == key);
                }
            }
            lemma_event_count_absent(rest, key);
            assert forall|j: int| 0 <= j < m.len() implies (#[trigger] m[j]).1.count == count_event_key(
                es,
                m[j].0,
            ) && m[j].1.fail == count_event_failed(es, m[j].0) by {
                if j < prev.len() {
                    assert(m[j] == prev[j]);
                    assert(prev[j].0 != key);
                }
            }
            assert forall|i: int| 0 <= i < es.len() implies exists|j: int|
                0 <= j < m.len() && m[j].0 == event_key(#[trigger] es[i]) by {
                if i < rest.len() {
                    assert(rest[i] == es[i]);
                    let j = choose|j: int| 0 <= j < prev.len() && prev[j].0 == event_key(rest[i]);
                    assert(m[j].0 == prev[j].0);
                } else {
                    assert(m[prev.len() as int].0 == key);
                }
            }
        }
    }
}

} // verus!
