//! Local aggregation of transactions: per type and name, how many ran, how
//! many failed, their total duration and a histogram of durations.
use vstd::prelude::*;
use vstd::string::StringSliceAdditionalSpecFns;
use vstd::wrapping::i64_specs::wrapping_add;
use crate::buffer;
use crate::consts;
use crate::decimal::{decimal_int, i64_to_string};
use crate::encoder::{BinaryEncoder, string_bytes, wire_bytes};
use crate::message::{status_is_success, Message, MessageData};
use crate::keyed::{find_key, key_bytes};
use crate::transaction::{DefaultTransaction, Transaction};

verus! {

/// Rounds `d` up to the next value of `dk * 2^k` (for `k >= 0`) that is at
/// least `d`.
pub open spec fn first_doubling_at_least(dk: int, d: int) -> int
    decreases (if dk < d { d - dk } else { 0int }),
    when dk > 0
{
    if dk < d {
        first_doubling_at_least(dk * 2, d)
    } else {
        dk
    }
}

/// The histogram bucket of a duration of `d` milliseconds: 1 below one
/// millisecond, `d` itself below 20, then `d` rounded down to a multiple of
/// 5, 20, 50, 500 and 10000 in the ranges that start at 20, 200, 500, 2000
/// and 20000, and from 1000000 on the first power of two times 524288 that
/// is at least `d`, but 3600000 above 3600000.
pub open spec fn duration_bucket(d: int) -> int {
    if d < 1 {
        1
    } else if d < 20 {
        d
    } else if d < 200 {
        d - d % 5
    } else if d < 500 {
        d - d % 20
    } else if d < 2000 {
        d - d % 50
    } else if d < 20000 {
        d - d % 500
    } else if d < 1000000 {
        d - d % 10000
    } else if d > 3600000 {
        3600000int
    } else {
        first_doubling_at_least(524288, d)
    }
}

/// Doubling from `dk` reaches at least `d`, and, when `d` is above `dk`,
/// stays below twice `d`.
proof fn lemma_first_doubling(dk: int, d: int)
    requires
        dk > 0,
    ensures
        first_doubling_at_least(dk, d) >= d,
        first_doubling_at_least(dk, d) >= dk,
        dk < d ==> first_doubling_at_least(dk, d) < 2 * d,
    decreases (if dk < d { d - dk } else { 0int }),
{
    if dk < d {
        lemma_first_doubling(dk * 2, d);
    }
}

/// Every bucket is at least 1; below 1000000 milliseconds a duration falls
/// into a bucket at or below it, less than the bucket's step below it (5 from
/// 20 on, 20 from 200 on, 50 from 500 on, 500 from 2000 on, 10000 from 20000
/// on); from 1000000 up to 3600000 the bucket is at or above the duration and
/// below twice it.
pub proof fn lemma_duration_bucket_bounds(d: int)
    ensures
        duration_bucket(d) >= 1,
        1 <= d < 20 ==> duration_bucket(d) == d,
        20 <= d < 1000000 ==> duration_bucket(d) <= d,
        20 <= d < 200 ==> d - duration_bucket(d) < 5 && duration_bucket(d) % 5 == 0,
        200 <= d < 500 ==> d - duration_bucket(d) < 20 && duration_bucket(d) % 20 == 0,
        500 <= d < 2000 ==> d - duration_bucket(d) < 50 && duration_bucket(d) % 50 == 0,
        2000 <= d < 20000 ==> d - duration_bucket(d) < 500 && duration_bucket(d) % 500 == 0,
        20000 <= d < 1000000 ==> d - duration_bucket(d) < 10000 && duration_bucket(d) % 10000 == 0,
        1000000 <= d <= 3600000 ==> d <= duration_bucket(d) < 2 * d,
        d > 3600000 ==> duration_bucket(d) == 3600000,
{
    lemma_first_doubling(524288, d);
}

/// No bucket occurs twice and every count is positive.
pub open spec fn buckets_distinct(s: Seq<(i64, i64)>) -> bool {
    &&& forall|i: int, j: int| 0 <= i < j < s.len() ==> s[i].0 != s[j].0
    &&& forall|i: int| 0 <= i < s.len() ==> s[i].1 > 0
}

/// Counts one more duration in `bucket`: a bucket already there grows by
/// its own value, a new bucket is added at the end with count 1.
pub open spec fn histogram_add(s: Seq<(i64, i64)>, bucket: i64) -> Seq<(i64, i64)> {
    if exists|j: int| 0 <= j < s.len() && s[j].0 == bucket {
        let j = choose|j: int| 0 <= j < s.len() && s[j].0 == bucket;
        s.update(j, (bucket, (s[j].1 + bucket) as i64))
    } else {
        s.push((bucket, 1))
    }
}

/// Where `bucket` stands in the histogram `s`, if anywhere.
fn find_bucket(s: &Vec<(i64, i64)>, bucket: i64) -> (r: Option<usize>)
    ensures
        r matches Some(i) ==> i < s@.len() && s@[i as int].0 == bucket,
        r is None ==> forall|j: int| 0 <= j < s@.len() ==> s@[j].0 != bucket,
{
    let mut i: usize = 0;
    while i < s.len()
        invariant
            i <= s@.len(),
            forall|j: int| 0 <= j < i ==> s@[j].0 != bucket,
        decreases s@.len() - i,
    {
        if s[i].0 == bucket {
            return Some(i);
        }
        i = i + 1;
    }
    None
}

/// Counting a duration touches only its bucket: a bucket already in the
/// histogram keeps its place and grows by its own value, every other entry
/// stays; a new bucket is added at the end with count 1.
pub proof fn lemma_histogram_add(s: Seq<(i64, i64)>, bucket: i64)
    requires
        buckets_distinct(s),
    ensures
        forall|j: int|
            0 <= j < s.len() && #[trigger] s[j].0 == bucket ==> histogram_add(s, bucket) == s.update(
                j,
                (bucket, (s[j].1 + bucket) as i64),
            ),
        (forall|k: int| 0 <= k < s.len() ==> s[k].0 != bucket) ==> histogram_add(s, bucket) == s.push(
            (bucket, 1i64),
        ),
{
    assert forall|j: int|
        0 <= j < s.len() && #[trigger] s[j].0 == bucket implies histogram_add(s, bucket) == s.update(
            j,
            (bucket, (s[j].1 + bucket) as i64),
        ) by {
        let c = choose|k: int| 0 <= k < s.len() && s[k].0 == bucket;
        assert(c == j);
    }
}

/// Growing `bucket` does not overflow.
pub open spec fn histogram_fits(s: Seq<(i64, i64)>, bucket: i64) -> bool {
    forall|j: int| 0 <= j < s.len() && s[j].0 == bucket ==> s[j].1 + bucket <= i64::MAX
}

/// The figures gathered for one type and name of transaction.
pub struct TransactionDataView {
    pub m_type: Seq<char>,
    pub name: Seq<char>,
    pub count: i64,
    pub fail: i64,
    pub sum: i64,
    pub durations: Seq<(i64, i64)>,
}

impl TransactionDataView {
    pub open spec fn wf(self) -> bool {
        buckets_distinct(self.durations)
    }

    /// The figures after one more transaction that succeeded or not and took
    /// `millis` milliseconds; the counters wrap around as atomic additions do.
    pub open spec fn add(self, success: bool, millis: i64) -> Self {
        TransactionDataView {
            m_type: self.m_type,
            name: self.name,
            count: wrapping_add(self.count, 1),
            fail: if success {
                self.fail
            } else {
                wrapping_add(self.fail, 1)
            },
            sum: wrapping_add(self.sum, millis),
            durations: histogram_add(self.durations, duration_bucket(millis as int) as i64),
        }
    }

    /// Adding a transaction of `millis` milliseconds keeps every count in range.
    pub open spec fn fits(self, millis: i64) -> bool {
        histogram_fits(self.durations, duration_bucket(millis as int) as i64)
    }
}

/// Figures of one type and name of transaction.
pub struct TransactionData {
    m_type: String,
    name: String,
    count: i64,
    fail: i64,
    sum: i64,
    duration: Vec<(i64, i64)>,
}

impl View for TransactionData {
    type V = TransactionDataView;

    closed spec fn view(&self) -> TransactionDataView {
        TransactionDataView {
            m_type: self.m_type@,
            name: self.name@,
            count: self.count,
            fail: self.fail,
            sum: self.sum,
            durations: self.duration@,
        }
    }
}

impl TransactionData {
    /// Each bucket occurs once in the histogram and counts at least one
    /// transaction.
    #[verifier::type_invariant]
    spec fn inv(self) -> bool {
        buckets_distinct(self.duration@)
    }

    /// No transaction counted yet.
    pub fn new(m_type: &String, name: &String) -> (r: TransactionData)
        ensures
            r@.m_type == m_type@,
            r@.name == name@,
            r@.count == 0,
            r@.fail == 0,
            r@.sum == 0,
            r@.durations == Seq::<(i64, i64)>::empty(),
    {
        TransactionData {
            m_type: m_type.clone(),
            name: name.clone(),
            count: 0,
            fail: 0,
            sum: 0,
            duration: Vec::new(),
        }
    }

    /// Counts `transaction`.
    pub fn add(&mut self, transaction: &DefaultTransaction)
        requires
            old(self)@.fits(transaction.duration()),
        ensures
            final(self)@ == old(self)@.add(
                transaction.data().status@ == consts::CAT_SUCCESS@,
                transaction.duration(),
            ),
    {
        proof {
            use_type_invariant(&*self);
        }
        self.count = self.count.wrapping_add(1);
        if !status_is_success(transaction.get_status()) {
            self.fail = self.fail.wrapping_add(1);
        }
        let millis = transaction.get_duration();
        self.sum = self.sum.wrapping_add(millis);

        let duration = Self::compute_duration(millis);
        let mut histogram: Vec<(i64, i64)> = Vec::new();
        std::mem::swap(&mut histogram, &mut self.duration);
        let ghost before = histogram@;
        match find_bucket(&histogram, duration) {
            Some(i) => {
                let (k, v) = histogram[i];
                assert(before[i as int].0 == duration);
                assert(duration == duration_bucket(millis as int) as i64);
                assert(histogram_fits(before, duration));
                assert(before[i as int].1 + duration <= i64::MAX);
                histogram.set(i, (k, v + duration));
                proof {
                    let c = choose|j: int| 0 <= j < before.len() && before[j].0 == duration;
                    assert(c == i as int);
                    assert(histogram@ == histogram_add(before, duration));
                    assert(buckets_distinct(histogram@)) by {
                        assert forall|a: int, b: int|
                            0 <= a < b < histogram@.len() implies histogram@[a].0
                            != histogram@[b].0 by {
                            assert(before[a].0 != before[b].0);
                        }
                        assert forall|a: int| 0 <= a < histogram@.len() implies histogram@[a].1 > 0 by {
                            assert(before[a].1 > 0);
                        }
                    }
                }
            },
            None => {
                histogram.push((duration, 1));
                assert(histogram@ == histogram_add(before, duration));
            },
        }
        std::mem::swap(&mut histogram, &mut self.duration);
    }

    pub fn get_type(&self) -> (r: &String)
        ensures
            r@ == self@.m_type,
    {
        &self.m_type
    }

    pub fn get_name(&self) -> (r: &String)
        ensures
            r@ == self@.name,
    {
        &self.name
    }

    pub fn get_count(&self) -> (r: i64)
        ensures
            r == self@.count,
    {
        self.count
    }

    pub fn get_fail(&self) -> (r: i64)
        ensures
            r == self@.fail,
    {
        self.fail
    }

    pub fn get_sum(&self) -> (r: i64)
        ensures
            r == self@.sum,
    {
        self.sum
    }

    /// The histogram: buckets with their counts, in the order the buckets
    /// first occurred.
    pub fn get_durations(&self) -> (r: &Vec<(i64, i64)>)
        ensures
            r@ == self@.durations,
    {
        &self.duration
    }

    /// The histogram bucket of a duration of `duration_in_millis` milliseconds.
    pub fn compute_duration(duration_in_millis: i64) -> (r: i64)
        ensures
            r == duration_bucket(duration_in_millis as int),
            r >= 1,
    {
        return if duration_in_millis < 1 {
            1
        } else if duration_in_millis < 20 {
            duration_in_millis
        } else if duration_in_millis < 200 {
            duration_in_millis - duration_in_millis % 5
        } else if duration_in_millis < 500 {
            duration_in_millis - duration_in_millis % 20
        } else if duration_in_millis < 2000 {
            duration_in_millis - duration_in_millis % 50
        } else if duration_in_millis < 20000 {
            duration_in_millis - duration_in_millis % 500
        } else if duration_in_millis < 1000000 {
            duration_in_millis - duration_in_millis % 10000
        } else {
            let mut dk: i64 = 524288;
            if duration_in_millis > 3600 * 1000 {
                dk = 3600 * 1000;
            } else {
                while dk < duration_in_millis
                    invariant
                        524288 <= dk <= 2 * 3600 * 1000,
                        1000000 <= duration_in_millis <= 3600 * 1000,
                        first_doubling_at_least(dk as int, duration_in_millis as int)
                            == first_doubling_at_least(524288, duration_in_millis as int),
                    decreases (if dk < duration_in_millis {
                        duration_in_millis - dk
                    } else {
                        0
                    }),
                {
                    assert(dk << 1 == dk * 2) by (bit_vector)
                        requires
                            0 < dk <= 2 * 3600 * 1000,
                    ;
                    dk <<= 1;
                }
            }
            dk
        };
    }
}

/// One entry of the encoded histogram: bucket, a comma, count.
pub open spec fn histogram_entry_bytes(e: (i64, i64)) -> Seq<u8> {
    wire_bytes(decimal_int(e.0 as int)) + seq![44u8] + wire_bytes(decimal_int(e.1 as int))
}

/// The encoded histogram: its entries in order, separated by `|`.
pub open spec fn histogram_bytes(s: Seq<(i64, i64)>) -> Seq<u8>
    decreases s.len(),
{
    if s.len() == 0 {
        Seq::empty()
    } else if s.len() == 1 {
        histogram_entry_bytes(s[0])
    } else {
        histogram_bytes(s.drop_last()) + seq![124u8] + histogram_entry_bytes(s.last())
    }
}

/// The encoded figures of a transaction type: `@`, then count, failures and
/// total duration as length-prefixed decimal text, each followed by `;`,
/// then the histogram.
pub open spec fn transaction_data_bytes(d: TransactionDataView) -> Seq<u8> {
    seq![consts::BATCH_FLAG] + wire_bytes(decimal_int(d.count as int)) + seq![consts::BATCH_SPLIT]
        + wire_bytes(decimal_int(d.fail as int)) + seq![consts::BATCH_SPLIT] + wire_bytes(
        decimal_int(d.sum as int),
    ) + seq![consts::BATCH_SPLIT] + histogram_bytes(d.durations)
}

/// A one-byte mark followed by a length-prefixed field can be read back:
/// the field and what follows it are determined.
proof fn lemma_marked_field(b: u8, x1: Seq<u8>, r1: Seq<u8>, x2: Seq<u8>, r2: Seq<u8>)
    requires
        seq![b] + wire_bytes(x1) + r1 == seq![b] + wire_bytes(x2) + r2,
    ensures
        x1 == x2,
        r1 == r2,
{
    assert(wire_bytes(x1) + r1 =~= (seq![b] + wire_bytes(x1) + r1).drop_first());
    assert(wire_bytes(x2) + r2 =~= (seq![b] + wire_bytes(x2) + r2).drop_first());
    crate::encoder::lemma_wire_bytes_prefix_free(x1, x2, r1, r2);
}

/// The encoded figures give back the figures they were written from: two
/// figures with the same encoding have the same count, the same number of
/// failures and the same total duration, so figures that differ in any of
/// these encode differently.
pub proof fn lemma_transaction_data_bytes_decodable(d1: TransactionDataView, d2: TransactionDataView)
    requires
        transaction_data_bytes(d1) == transaction_data_bytes(d2),
    ensures
        d1.count == d2.count,
        d1.fail == d2.fail,
        d1.sum == d2.sum,
{
    let sp = consts::BATCH_SPLIT;
    let v1 = seq![sp] + histogram_bytes(d1.durations);
    let v2 = seq![sp] + histogram_bytes(d2.durations);
    let u1 = seq![sp] + wire_bytes(decimal_int(d1.sum as int)) + v1;
    let u2 = seq![sp] + wire_bytes(decimal_int(d2.sum as int)) + v2;
    let t1 = seq![sp] + wire_bytes(decimal_int(d1.fail as int)) + u1;
    let t2 = seq![sp] + wire_bytes(decimal_int(d2.fail as int)) + u2;
    assert(transaction_data_bytes(d1) =~= seq![consts::BATCH_FLAG] + wire_bytes(decimal_int(d1.count as int)) + t1);
    assert(transaction_data_bytes(d2) =~= seq![consts::BATCH_FLAG] + wire_bytes(decimal_int(d2.count as int)) + t2);
    lemma_marked_field(consts::BATCH_FLAG, decimal_int(d1.count as int), t1, decimal_int(d2.count as int), t2);
    lemma_marked_field(sp, decimal_int(d1.fail as int), u1, decimal_int(d2.fail as int), u2);
    lemma_marked_field(sp, decimal_int(d1.sum as int), v1, decimal_int(d2.sum as int), v2);
    crate::decimal::lemma_decimal_int_injective(d1.count as int, d2.count as int);
    crate::decimal::lemma_decimal_int_injective(d1.fail as int, d2.fail as int);
    crate::decimal::lemma_decimal_int_injective(d1.sum as int, d2.sum as int);
}

/// Writes the decimal text of `n` with its length in front.
fn write_decimal(buf: &mut Vec<u8>, n: i64)
    ensures
        final(buf)@ == old(buf)@ + wire_bytes(decimal_int(n as int)),
{
    let s = i64_to_string(n);
    let text = s.as_str();
    assert(text.spec_bytes() == decimal_int(n as int));
    proof {
        crate::decimal::lemma_decimal_int_len(n as int);
    }
    BinaryEncoder::write_string(buf, text);
}

/// Encodes the figures of a transaction type for the batch report.
pub fn encode_transaction_data(data: &TransactionData) -> (r: Vec<u8>)
    ensures
        r@ == transaction_data_bytes(data@),
{
    let mut buf: Vec<u8> = Vec::new();
    buffer::put_u8(&mut buf, consts::BATCH_FLAG);
    write_decimal(&mut buf, data.count);
    buffer::put_u8(&mut buf, consts::BATCH_SPLIT);
    write_decimal(&mut buf, data.fail);
    buffer::put_u8(&mut buf, consts::BATCH_SPLIT);
    write_decimal(&mut buf, data.sum);
    buffer::put_u8(&mut buf, consts::BATCH_SPLIT);
    let ghost head = buf@;
    let mut i: usize = 0;
    let len = data.duration.len();
    while i < len
        invariant
            len == data.duration@.len(),
            i <= len,
            buf@ == head + histogram_bytes(data.duration@.take(i as int)),
        decreases len - i,
    {
        let (k, v) = data.duration[i];
        if i > 0 {
            buffer::put_u8(&mut buf, 124);
        }
        write_decimal(&mut buf, k);
        buffer::put_u8(&mut buf, 44);
        write_decimal(&mut buf, v);
        proof {
            let s = data.duration@.take(i + 1);
            assert(s.drop_last() =~= data.duration@.take(i as int));
            assert(s.last() == (k, v));
        }
        i = i + 1;
        assert(buf@ =~= head + histogram_bytes(data.duration@.take(i as int)));
    }
    assert(data.duration@.take(len as int) =~= data.duration@);
    assert(buf@ =~= transaction_data_bytes(data@));
    buf
}

/// The key under which a transaction is aggregated: its type, `-`, its name.
pub open spec fn transaction_key(m: MessageData) -> Seq<u8> {
    string_bytes(m.m_type) + seq![45u8] + string_bytes(m.name)
}

/// The figures of a type of transaction that nothing was counted for yet.
pub open spec fn empty_transaction_data(m_type: Seq<char>, name: Seq<char>) -> TransactionDataView {
    TransactionDataView {
        m_type,
        name,
        count: 0,
        fail: 0,
        sum: 0,
        durations: Seq::empty(),
    }
}

/// The aggregated figures as pairs of key and figures.
pub open spec fn entries_view(v: Seq<(Vec<u8>, TransactionData)>) -> Seq<(Seq<u8>, TransactionDataView)> {
    v.map_values(|e: (Vec<u8>, TransactionData)| (e.0@, e.1@))
}

/// Keys are distinct and every entry is well formed.
pub open spec fn entries_wf(s: Seq<(Seq<u8>, TransactionDataView)>) -> bool {
    &&& forall|i: int, j: int| 0 <= i < j < s.len() ==> s[i].0 != s[j].0
    &&& forall|i: int| 0 <= i < s.len() ==> (#[trigger] s[i]).1.wf()
}

/// The figures after counting `t`: the entry of its key is updated, or a new
/// entry for it is added at the end.
pub open spec fn merge_transaction(
    s: Seq<(Seq<u8>, TransactionDataView)>,
    t: MessageData,
    millis: i64,
) -> Seq<(Seq<u8>, TransactionDataView)> {
    let key = transaction_key(t);
    let success = t.status@ == consts::CAT_SUCCESS@;
    if exists|j: int| 0 <= j < s.len() && s[j].0 == key {
        let j = choose|j: int| 0 <= j < s.len() && s[j].0 == key;
        s.update(j, (key, s[j].1.add(success, millis)))
    } else {
        s.push((key, empty_transaction_data(t.m_type@, t.name@).add(success, millis)))
    }
}

/// Counting a transaction of `millis` milliseconds under `key` keeps every
/// count in range.
pub open spec fn merge_fits(s: Seq<(Seq<u8>, TransactionDataView)>, key: Seq<u8>, millis: i64) -> bool {
    forall|j: int| 0 <= j < s.len() && s[j].0 == key ==> s[j].1.fits(millis)
}

/// The key of a transaction's figures in the aggregator.
pub fn transaction_key_bytes(t: &MessageData) -> (r: Vec<u8>)
    ensures
        r@ == transaction_key(*t),
{
    key_bytes(t.get_type(), 45, t.get_name())
}

/// Gathers the figures of the transactions it is handed, per type and name.
pub struct TransactionAggregator {
    data_map: Vec<(Vec<u8>, TransactionData)>,
}

impl View for TransactionAggregator {
    type V = Seq<(Seq<u8>, TransactionDataView)>;

    closed spec fn view(&self) -> Seq<(Seq<u8>, TransactionDataView)> {
        entries_view(self.data_map@)
    }
}

impl TransactionAggregator {
    /// Keys are distinct and every entry is well formed.
    #[verifier::type_invariant]
    spec fn inv(self) -> bool {
        entries_wf(entries_view(self.data_map@))
    }

    /// Nothing gathered yet.
    pub fn new() -> (r: Self)
        ensures
            r@ == Seq::<(Seq<u8>, TransactionDataView)>::empty(),
    {
        let r = TransactionAggregator { data_map: Vec::new() };
        assert(r@ =~= Seq::<(Seq<u8>, TransactionDataView)>::empty());
        r
    }

    /// Counts `transaction` under its type and name.
    pub fn put_or_merge(&mut self, transaction: &DefaultTransaction)
        requires
            merge_fits(old(self)@, transaction_key(transaction.data()), transaction.duration()),
        ensures
            final(self)@ == merge_transaction(old(self)@, transaction.data(), transaction.duration()),
            entries_wf(final(self)@),
    {
        proof {
            use_type_invariant(&*self);
        }
        let key = transaction_key_bytes(transaction.message_data());
        let ghost before = self@;
        let ghost millis = transaction.duration();
        let mut entries: Vec<(Vec<u8>, TransactionData)> = Vec::new();
        std::mem::swap(&mut entries, &mut self.data_map);
        assert(entries_view(entries@) == before);
        match find_key(&entries, &key) {
            Some(i) => {
                let ghost old_map = entries@;
                let (k, mut data) = entries.remove(i);
                assert(before[i as int].1 == data@);
                assert(before[i as int].0 == key@);
                assert(data@.fits(millis));
                data.add(transaction);
                proof {
                    use_type_invariant(&data);
                }
                entries.insert(i, (k, data));
                proof {
                    let c = choose|j: int| 0 <= j < before.len() && before[j].0 == key@;
                    assert(c == i as int);
                    assert(entries@ =~= old_map.update(i as int, (k, data)));
                    assert(entries_view(entries@) =~= merge_transaction(before, transaction.data(), millis));
                }
            },
            None => {
                let mut data = TransactionData::new(transaction.get_type(), transaction.get_name());
                assert(data@ == empty_transaction_data(transaction.data().m_type@, transaction.data().name@));
                data.add(transaction);
                proof {
                    use_type_invariant(&data);
                }
                entries.push((key, data));
                assert(entries_view(entries@) =~= merge_transaction(before, transaction.data(), millis));
            },
        }
        assert(entries_wf(entries_view(entries@)));
        std::mem::swap(&mut entries, &mut self.data_map);
    }

    /// The figures gathered so far, with their keys, in the order the keys
    /// first occurred.
    pub fn get_data_map(&self) -> (r: &Vec<(Vec<u8>, TransactionData)>)
        ensures
            entries_view(r@) == self@,
    {
        &self.data_map
    }

    /// Takes the figures gathered so far and starts afresh.
    pub fn collect(&mut self) -> (r: Vec<(Vec<u8>, TransactionData)>)
        ensures
            entries_view(r@) == old(self)@,
            final(self)@ == Seq::<(Seq<u8>, TransactionDataView)>::empty(),
    {
        let mut data: Vec<(Vec<u8>, TransactionData)> = Vec::new();
        std::mem::swap(&mut data, &mut self.data_map);
        assert(self@ =~= Seq::<(Seq<u8>, TransactionDataView)>::empty());
        data
    }
}

/// The report of gathered figures: a transaction of type `System` named
/// `TransactionAggregator` whose children are one transaction per entry,
/// with the entry's type and name and its encoded figures as data.
pub fn transaction_report(data_map: &Vec<(Vec<u8>, TransactionData)>, time: i64) -> (r: Option<
    DefaultTransaction,
>)
    ensures
        r is None <==> data_map@.len() == 0,
        r matches Some(t) ==> {
            &&& t.data().m_type@ == consts::TYPE_SYSTEM@
            &&& t.data().name@ == consts::NAME_TRANSACTION_AGGREGATOR@
            &&& t.data().status == consts::CAT_SUCCESS
            &&& t.data().data@ == Seq::<u8>::empty()
            &&& t.data().time == time
            &&& t.duration() == 0
            &&& t.children().len() == data_map@.len()
            &&& forall|i: int|
                0 <= i < data_map@.len() ==> report_child(t.children()[i], data_map@[i].1@, time)
        },
{
    if data_map.len() == 0 {
        return None;
    }
    let mut transaction = DefaultTransaction::with_name(
        consts::TYPE_SYSTEM.to_owned(),
        consts::NAME_TRANSACTION_AGGREGATOR.to_owned(),
        time,
    );
    let mut i: usize = 0;
    while i < data_map.len()
        invariant
            i <= data_map@.len(),
            transaction.data().m_type@ == consts::TYPE_SYSTEM@,
            transaction.data().name@ == consts::NAME_TRANSACTION_AGGREGATOR@,
            transaction.data().status == consts::CAT_SUCCESS,
            transaction.data().data@ == Seq::<u8>::empty(),
            transaction.data().time == time,
            transaction.duration() == 0,
            transaction.children().len() == i,
            forall|j: int|
                0 <= j < i ==> report_child(transaction.children()[j], data_map@[j].1@, time),
        decreases data_map@.len() - i,
    {
        let transaction_data = &data_map[i].1;
        let data = encode_transaction_data(transaction_data);
        let mut trans = DefaultTransaction::with_name(
            transaction_data.m_type.clone(),
            transaction_data.name.clone(),
            time,
        );
        trans.set_data(data);
        transaction.add_children(Message::Transaction(Box::new(trans)));
        assert(report_child(transaction.children()[i as int], data_map@[i as int].1@, time));
        i = i + 1;
    }
    Some(transaction)
}

/// A child of the report that stands for the figures `d`.
pub open spec fn report_child(m: Message, d: TransactionDataView, time: i64) -> bool {
    match m {
        Message::Transaction(c) => {
            &&& c.data().m_type@ == d.m_type
            &&& c.data().name@ == d.name
            &&& c.data().status == consts::CAT_SUCCESS
            &&& c.data().data@ == transaction_data_bytes(d)
            &&& c.data().time == time
            &&& c.duration() == 0
            &&& c.children().len() == 0
        },
        _ => false,
    }
}

/// The figures after counting the transactions of `ts` one after the other,
/// each with its duration, starting from nothing.
pub open spec fn merge_all(ts: Seq<(MessageData, i64)>) -> Seq<(Seq<u8>, TransactionDataView)>
    decreases ts.len(),
{
    if ts.len() == 0 {
        Seq::empty()
    } else {
        merge_transaction(merge_all(ts.drop_last()), ts.last().0, ts.last().1)
    }
}

/// How many transactions of `ts` have the key `key`.
pub open spec fn count_key(ts: Seq<(MessageData, i64)>, key: Seq<u8>) -> nat
    decreases ts.len(),
{
    if ts.len() == 0 {
        0
    } else {
        count_key(ts.drop_last(), key) + if transaction_key(ts.last().0) == key {
            1nat
        } else {
            0nat
        }
    }
}

/// How many transactions of `ts` have the key `key` and did not succeed.
pub open spec fn count_failed(ts: Seq<(MessageData, i64)>, key: Seq<u8>) -> nat
    decreases ts.len(),
{
    if ts.len() == 0 {
        0
    } else {
        count_failed(ts.drop_last(), key) + if transaction_key(ts.last().0) == key
            && ts.last().0.status@ != consts::CAT_SUCCESS@ {
            1nat
        } else {
            0nat
        }
    }
}

proof fn lemma_counts_bounded(ts: Seq<(MessageData, i64)>, key: Seq<u8>)
    ensures
        count_failed(ts, key) <= count_key(ts, key) <= ts.len(),
    decreases ts.len(),
{
    if ts.len() > 0 {
        lemma_counts_bounded(ts.drop_last(), key);
    }
}

proof fn lemma_count_absent(ts: Seq<(MessageData, i64)>, key: Seq<u8>)
    requires
        forall|i: int| 0 <= i < ts.len() ==> transaction_key(#[trigger] ts[i].0) != key,
    ensures
        count_key(ts, key) == 0,
        count_failed(ts, key) == 0,
    decreases ts.len(),
{
    if ts.len() > 0 {
        assert forall|i: int| 0 <= i < ts.drop_last().len() implies transaction_key(
            #[trigger] ts.drop_last()[i].0,
        ) != key by {
            assert(ts.drop_last()[i] == ts[i]);
        }
        lemma_count_absent(ts.drop_last(), key);
        assert(transaction_key(ts[ts.len() - 1].0) != key);
    }
}

/// What the aggregator reports is what it was handed: after counting the
/// transactions `ts` (fewer than `i64::MAX` of them, so no counter wraps
/// around), every entry holds as many transactions as `ts` has with its key
/// and as many failures as `ts` has failed transactions with its key, every
/// transaction of `ts` has an entry, and no key has two entries.
pub proof fn lemma_aggregation_counts(ts: Seq<(MessageData, i64)>)
    requires
        ts.len() < i64::MAX,
    ensures
        forall|j: int|
            0 <= j < merge_all(ts).len() ==> (#[trigger] merge_all(ts)[j]).1.count == count_key(
                ts,
                merge_all(ts)[j].0,
            ) && merge_all(ts)[j].1.fail == count_failed(ts, merge_all(ts)[j].0),
        forall|i: int|
            0 <= i < ts.len() ==> exists|j: int|
                0 <= j < merge_all(ts).len() && merge_all(ts)[j].0 == transaction_key(
                    #[trigger] ts[i].0,
                ),
        forall|a: int, b: int|
            0 <= a < b < merge_all(ts).len() ==> merge_all(ts)[a].0 != merge_all(ts)[b].0,
    decreases ts.len(),
{
    if ts.len() > 0 {
        let rest = ts.drop_last();
        let prev = merge_all(rest);
        let t = ts.last();
        let key = transaction_key(t.0);
        let success = t.0.status@ == consts::CAT_SUCCESS@;
        lemma_aggregation_counts(rest);
        let m = merge_all(ts);
        assert(m == merge_transaction(prev, t.0, t.1));
        if exists|j: int| 0 <= j < prev.len() && prev[j].0 == key {
            let j0 = choose|j: int| 0 <= j < prev.len() && prev[j].0 == key;
            assert(m == prev.update(j0, (key, prev[j0].1.add(success, t.1))));
            lemma_counts_bounded(rest, key);
            assert forall|j: int| 0 <= j < m.len() implies (#[trigger] m[j]).1.count == count_key(
                ts,
                m[j].0,
            ) && m[j].1.fail == count_failed(ts, m[j].0) by {
                if j != j0 {
                    assert(m[j] == prev[j]);
                    assert(prev[j].0 != key);
                }
            }
            assert forall|i: int| 0 <= i < ts.len() implies exists|j: int|
                0 <= j < m.len() && m[j].0 == transaction_key(#[trigger] ts[i].0) by {
                if i < rest.len() {
                    assert(rest[i] == ts[i]);
                    let j = choose|j: int| 0 <= j < prev.len() && prev[j].0 == transaction_key(rest[i].0);
                    assert(m[j].0 == prev[j].0);
                } else {
                    assert(m[j0].0 == key);
                }
            }
        } else {
            assert(m == prev.push((key, empty_transaction_data(t.0.m_type@, t.0.name@).add(success, t.1))));
            assert forall|i: int| 0 <= i < rest.len() implies transaction_key(#[trigger] rest[i].0) != key by {
                if transaction_key(rest[i].0) == key {
                    let j = choose|j: int| 0 <= j < prev.len() && prev[j].0 == transaction_key(rest[i].0);
                    assert(prev[j].0 == key);
                }
            }
            lemma_count_absent(rest, key);
            assert forall|j: int| 0 <= j < m.len() implies (#[trigger] m[j]).1.count == count_key(
                ts,
                m[j].0,
            ) && m[j].1.fail == count_failed(ts, m[j].0) by {
                if j < prev.len() {
                    assert(m[j] == prev[j]);
                    assert(prev[j].0 != key);
                }
            }
            assert forall|i: int| 0 <= i < ts.len() implies exists|j: int|
                0 <= j < m.len() && m[j].0 == transaction_key(#[trigger] ts[i].0) by {
                if i < rest.len() {
                    assert(rest[i] == ts[i]);
                    let j = choose|j: int| 0 <= j < prev.len() && prev[j].0 == transaction_key(rest[i].0);
                    assert(m[j].0 == prev[j].0);
                } else {
                    assert(m[prev.len() as int].0 == key);
                }
            }
        }
    }
}

/// The histogram of the transactions of `ts` with the key `key`: each of
/// them, in order, counted in the bucket of its duration.
pub open spec fn key_histogram(ts: Seq<(MessageData, i64)>, key: Seq<u8>) -> Seq<(i64, i64)>
    decreases ts.len(),
{
    if ts.len() == 0 {
        Seq::empty()
    } else if transaction_key(ts.last().0) == key {
        histogram_add(key_histogram(ts.drop_last(), key), duration_bucket(ts.last().1 as int) as i64)
    } else {
        key_histogram(ts.drop_last(), key)
    }
}

/// The total duration of the transactions of `ts` with the key `key`,
/// wrapping around as the counter does.
pub open spec fn key_sum(ts: Seq<(MessageData, i64)>, key: Seq<u8>) -> i64
    decreases ts.len(),
{
    if ts.len() == 0 {
        0
    } else if transaction_key(ts.last().0) == key {
        wrapping_add(key_sum(ts.drop_last(), key), ts.last().1)
    } else {
        key_sum(ts.drop_last(), key)
    }
}

/// Every transaction reaches the histogram and the total of its key: after
/// counting the transactions `ts` from nothing, the histogram of each entry
/// has every transaction of `ts` with that key counted in the bucket of its
/// duration, in order, and its total duration is the sum of their
/// durations; no key has two entries.
pub proof fn lemma_aggregation_histogram(ts: Seq<(MessageData, i64)>)
    ensures
        forall|j: int|
            0 <= j < merge_all(ts).len() ==> (#[trigger] merge_all(ts)[j]).1.durations
                == key_histogram(ts, merge_all(ts)[j].0) && merge_all(ts)[j].1.sum == key_sum(
                ts,
                merge_all(ts)[j].0,
            ),
        forall|key: Seq<u8>|
            (forall|j: int| 0 <= j < merge_all(ts).len() ==> merge_all(ts)[j].0 != key) ==> (
            #[trigger] key_histogram(ts, key) == Seq::<(i64, i64)>::empty() && key_sum(ts, key) == 0),
        forall|a: int, b: int|
            0 <= a < b < merge_all(ts).len() ==> merge_all(ts)[a].0 != merge_all(ts)[b].0,
    decreases ts.len(),
{
    if ts.len() > 0 {
        let rest = ts.drop_last();
        let prev = merge_all(rest);
        let t = ts.last();
        let key = transaction_key(t.0);
        let success = t.0.status@ == consts::CAT_SUCCESS@;
        lemma_aggregation_histogram(rest);
        let m = merge_all(ts);
        assert(m == merge_transaction(prev, t.0, t.1));
        if exists|j: int| 0 <= j < prev.len() && prev[j].0 == key {
            let j0 = choose|j: int| 0 <= j < prev.len() && prev[j].0 == key;
            assert(m == prev.update(j0, (key, prev[j0].1.add(success, t.1))));
            assert forall|j: int| 0 <= j < m.len() implies (#[trigger] m[j]).1.durations == key_histogram(
                ts,
                m[j].0,
            ) && m[j].1.sum == key_sum(ts, m[j].0) by {
                if j != j0 {
                    assert(m[j] == prev[j]);
                    assert(prev[j].0 != key);
                }
            }
            assert forall|k: Seq<u8>|
                (forall|j: int| 0 <= j < m.len() ==> m[j].0 != k) implies #[trigger] key_histogram(ts, k)
                == Seq::<(i64, i64)>::empty() && key_sum(ts, k) == 0 by {
                assert(m[j0].0 == key);
                assert forall|j: int| 0 <= j < prev.len() implies prev[j].0 != k by {
                    assert(m[j].0 == prev[j].0);
                }
                assert(key != k);
                assert(key_histogram(rest, k) == Seq::<(i64, i64)>::empty());
                assert(key_sum(rest, k) == 0);
                assert(key_histogram(ts, k) == key_histogram(rest, k));
                assert(key_sum(ts, k) == key_sum(rest, k));
            }
        } else {
            assert(m == prev.push((key, empty_transaction_data(t.0.m_type@, t.0.name@).add(success, t.1))));
            assert forall|j: int| 0 <= j < prev.len() implies prev[j].0 != key by {}
            assert(key_histogram(rest, key) == Seq::<(i64, i64)>::empty());
            assert forall|j: int| 0 <= j < m.len() implies (#[trigger] m[j]).1.durations == key_histogram(
                ts,
                m[j].0,
            ) && m[j].1.sum == key_sum(ts, m[j].0) by {
                if j < prev.len() {
                    assert(m[j] == prev[j]);
                    assert(prev[j].0 != key);
                }
            }
            assert forall|k: Seq<u8>|
                (forall|j: int| 0 <= j < m.len() ==> m[j].0 != k) implies #[trigger] key_histogram(ts, k)
                == Seq::<(i64, i64)>::empty() && key_sum(ts, k) == 0 by {
                assert(m[prev.len() as int].0 == key);
                assert forall|j: int| 0 <= j < prev.len() implies prev[j].0 != k by {
                    assert(m[j].0 == prev[j].0);
                }
                assert(key != k);
                assert(key_histogram(rest, k) == Seq::<(i64, i64)>::empty());
                assert(key_sum(rest, k) == 0);
                assert(key_histogram(ts, k) == key_histogram(rest, k));
                assert(key_sum(ts, k) == key_sum(rest, k));
            }
        }
    }
}

} // verus!
