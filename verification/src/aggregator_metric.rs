//! Local aggregation of metrics: per name, the total count and duration.
use vstd::prelude::*;
use crate::encoder::string_bytes;
use crate::keyed::find_key;

verus! {

/// The figures of a metric.
pub struct MetricDataView {
    pub m_type: Seq<char>,
    pub name: Seq<char>,
    pub count: i64,
    pub duration: i64,
}

/// A measurement of a metric: how many and how long.
pub struct MetricData {
    m_type: String,
    name: String,
    count: i64,
    duration: i64,
}

impl View for MetricData {
    type V = MetricDataView;

    closed spec fn view(&self) -> MetricDataView {
        MetricDataView { m_type: self.m_type@, name: self.name@, count: self.count, duration: self.duration }
    }
}

impl MetricData {
    pub fn new(m_type: String, name: String, count: i64, duration: i64) -> (r: Self)
        ensures
            r@ == (MetricDataView { m_type: m_type@, name: name@, count, duration }),
    {
        MetricData { m_type, name, count, duration }
    }

    pub fn get_type(&self) -> (r: &String)
        ensures
            r@ == self@.m_type,
    {
        &self.m_type
    }

    pub fn get_name(&self) -> (r: &String)
        ensures
            r@ == self@.name,
    {
        &self.name
    }

    pub fn get_count(&self) -> (r: i64)
        ensures
            r == self@.count,
    {
        self.count
    }

    pub fn get_duration(&self) -> (r: i64)
        ensures
            r == self@.duration,
    {
        self.duration
    }
}

/// The aggregated metrics as pairs of name bytes and figures.
pub open spec fn metric_entries_view(v: Seq<(Vec<u8>, MetricData)>) -> Seq<(Seq<u8>, MetricDataView)> {
    v.map_values(|e: (Vec<u8>, MetricData)| (e.0@, e.1@))
}

/// No name occurs twice.
pub open spec fn metric_keys_distinct(s: Seq<(Seq<u8>, MetricDataView)>) -> bool {
    forall|i: int, j: int| 0 <= i < j < s.len() ==> s[i].0 != s[j].0
}

/// The figures after adding `m`: the entry of its name gets the sums of
/// counts and durations, or `m` is added at the end.
pub open spec fn merge_metric(s: Seq<(Seq<u8>, MetricDataView)>, m: MetricDataView) -> Seq<
    (Seq<u8>, MetricDataView),
> {
    let key = metric_key(m);
    if exists|j: int| 0 <= j < s.len() && s[j].0 == key {
        let j = choose|j: int| 0 <= j < s.len() && s[j].0 == key;
        s.update(
            j,
            (
                key,
                MetricDataView {
                    count: (s[j].1.count + m.count) as i64,
                    duration: (s[j].1.duration + m.duration) as i64,
                    ..s[j].1
                },
            ),
        )
    } else {
        s.push((key, m))
    }
}

/// Adding `m` to the entry of its name does not overflow.
pub open spec fn metric_merge_fits(s: Seq<(Seq<u8>, MetricDataView)>, m: MetricDataView) -> bool {
    forall|j: int|
        0 <= j < s.len() && s[j].0 == metric_key(m) ==> {
            &&& i64::MIN <= s[j].1.count + m.count <= i64::MAX
            &&& i64::MIN <= s[j].1.duration + m.duration <= i64::MAX
        }
}

/// Gathers metrics per name.
pub struct AggregatorMetric {
    data_map: Vec<(Vec<u8>, MetricData)>,
}

impl View for AggregatorMetric {
    type V = Seq<(Seq<u8>, MetricDataView)>;

    closed spec fn view(&self) -> Seq<(Seq<u8>, MetricDataView)> {
        metric_entries_view(self.data_map@)
    }
}

impl AggregatorMetric {
    /// No name occurs twice.
    #[verifier::type_invariant]
    spec fn inv(self) -> bool {
        metric_keys_distinct(metric_entries_view(self.data_map@))
    }

    /// Nothing gathered yet.
    pub fn new() -> (r: Self)
        ensures
            r@ == Seq::<(Seq<u8>, MetricDataView)>::empty(),
    {
        let r = AggregatorMetric { data_map: Vec::new() };
        assert(r@ =~= Seq::<(Seq<u8>, MetricDataView)>::empty());
        r
    }

    /// The figures gathered so far, with the bytes of their names, in the
    /// order the names first occurred.
    pub fn get_data_map(&self) -> (r: &Vec<(Vec<u8>, MetricData)>)
        ensures
            metric_entries_view(r@) == self@,
    {
        &self.data_map
    }

    /// Adds `metric_data` to the figures of its name.
    pub fn put_or_merge(&mut self, metric_data: MetricData)
        requires
            metric_merge_fits(old(self)@, metric_data@),
        ensures
            final(self)@ == merge_metric(old(self)@, metric_data@),
            metric_keys_distinct(final(self)@),
    {
        proof {
            use_type_invariant(&*self);
        }
        let mut key: Vec<u8> = Vec::new();
        crate::keyed::append_bytes(&mut key, metric_data.name.as_str().as_bytes());
        assert(key@ =~= string_bytes(metric_data.name));
        let ghost before = self@;
        let mut entries: Vec<(Vec<u8>, MetricData)> = Vec::new();
        std::mem::swap(&mut entries, &mut self.data_map);
        assert(metric_entries_view(entries@) == before);
        match find_key(&entries, &key) {
            Some(i) => {
                let ghost old_map = entries@;
                let (k, mut data) = entries.remove(i);
                assert(before[i as int].1 == data@);
                assert(before[i as int].0 == key@);
                data.count = data.count + metric_data.count;
                data.duration = data.duration + metric_data.duration;
                entries.insert(i, (k, data));
                proof {
                    let c = choose|j: int| 0 <= j < before.len() && before[j].0 == key@;
                    assert(c == i as int);
                    assert(entries@ =~= old_map.update(i as int, (k, data)));
                    assert(metric_entries_view(entries@) =~= merge_metric(before, metric_data@));
                }
            },
            None => {
                let ghost m = metric_data@;
                entries.push((key, metric_data));
                assert(metric_entries_view(entries@) =~= merge_metric(before, m));
            },
        }
        assert(metric_keys_distinct(metric_entries_view(entries@)));
        std::mem::swap(&mut entries, &mut self.data_map);
    }
}

/// The figures after adding the metrics `ms` one after the other, starting
/// from nothing.
pub open spec fn merge_all_metrics(ms: Seq<MetricDataView>) -> Seq<(Seq<u8>, MetricDataView)>
    decreases ms.len(),
{
    if ms.len() == 0 {
        Seq::empty()
    } else {
        merge_metric(merge_all_metrics(ms.drop_last()), ms.last())
    }
}

/// The key of a metric: the bytes of its name.
pub open spec fn metric_key(m: MetricDataView) -> Seq<u8> {
    vstd::utf8::encode_utf8(m.name)
}

/// The total count of the metrics of `ms` named by `key`.
pub open spec fn sum_counts(ms: Seq<MetricDataView>, key: Seq<u8>) -> int
    decreases ms.len(),
{
    if ms.len() == 0 {
        0
    } else {
        sum_counts(ms.drop_last(), key) + if metric_key(ms.last()) == key {
            ms.last().count as int
        } else {
            0
        }
    }
}

/// The total duration of the metrics of `ms` named by `key`.
pub open spec fn sum_durations(ms: Seq<MetricDataView>, key: Seq<u8>) -> int
    decreases ms.len(),
{
    if ms.len() == 0 {
        0
    } else {
        sum_durations(ms.drop_last(), key) + if metric_key(ms.last()) == key {
            ms.last().duration as int
        } else {
            0
        }
    }
}

/// The total count of all metrics of `ms`.
pub open spec fn total_counts(ms: Seq<MetricDataView>) -> int
    decreases ms.len(),
{
    if ms.len() == 0 {
        0
    } else {
        total_counts(ms.drop_last()) + ms.last().count
    }
}

/// The total duration of all metrics of `ms`.
pub open spec fn total_durations(ms: Seq<MetricDataView>) -> int
    decreases ms.len(),
{
    if ms.len() == 0 {
        0
    } else {
        total_durations(ms.drop_last()) + ms.last().duration
    }
}

/// Counts and durations are not negative.
pub open spec fn metrics_nonnegative(ms: Seq<MetricDataView>) -> bool {
    forall|i: int| 0 <= i < ms.len() ==> (#[trigger] ms[i]).count >= 0 && ms[i].duration >= 0
}

proof fn lemma_sums_bounded(ms: Seq<MetricDataView>, key: Seq<u8>)
    requires
        metrics_nonnegative(ms),
    ensures
        0 <= sum_counts(ms, key) <= total_counts(ms),
        0 <= sum_durations(ms, key) <= total_durations(ms),
    decreases ms.len(),
{
    if ms.len() > 0 {
        assert(metrics_nonnegative(ms.drop_last())) by {
            assert forall|i: int| 0 <= i < ms.drop_last().len() implies (#[trigger] ms.drop_last()[i]).count
                >= 0 && ms.drop_last()[i].duration >= 0 by {
                assert(ms.drop_last()[i] == ms[i]);
            }
        }
        lemma_sums_bounded(ms.drop_last(), key);
        assert(ms[ms.len() - 1].count >= 0);
    }
}

proof fn lemma_sums_absent(ms: Seq<MetricDataView>, key: Seq<u8>)
    requires
        forall|i: int| 0 <= i < ms.len() ==> metric_key(#[trigger] ms[i]) != key,
    ensures
        sum_counts(ms, key) == 0,
        sum_durations(ms, key) == 0,
    decreases ms.len(),
{
    if ms.len() > 0 {
        assert forall|i: int| 0 <= i < ms.drop_last().len() implies metric_key(
            #[trigger] ms.drop_last()[i],
        ) != key by {
            assert(ms.drop_last()[i] == ms[i]);
        }
        lemma_sums_absent(ms.drop_last(), key);
        assert(metric_key(ms[ms.len() - 1]) != key);
    }
}

/// What the metric aggregator reports is what it was handed: after adding
/// the metrics `ms` (counts and durations not negative, their totals within
/// `i64`), every entry holds the total count and duration of the metrics of
/// its name, every metric has an entry, and no name has two entries.
pub proof fn lemma_metric_aggregation_sums(ms: Seq<MetricDataView>)
    requires
        metrics_nonnegative(ms),
        total_counts(ms) <= i64::MAX,
        total_durations(ms) <= i64::MAX,
    ensures
        forall|j: int|
            0 <= j < merge_all_metrics(ms).len() ==> (#[trigger] merge_all_metrics(ms)[j]).1.count
                == sum_counts(ms, merge_all_metrics(ms)[j].0) && merge_all_metrics(ms)[j].1.duration
                == sum_durations(ms, merge_all_metrics(ms)[j].0),
        forall|i: int|
            0 <= i < ms.len() ==> exists|j: int|
                0 <= j < merge_all_metrics(ms).len() && merge_all_metrics(ms)[j].0 == metric_key(
                    #[trigger] ms[i],
                ),
        metric_keys_distinct(merge_all_metrics(ms)),
    decreases ms.len(),
{
    if ms.len() > 0 {
        let rest = ms.drop_last();
        let prev = merge_all_metrics(rest);
        let m0 = ms.last();
        let key = metric_key(m0);
        assert(metrics_nonnegative(rest)) by {
            assert forall|i: int| 0 <= i < rest.len() implies (#[trigger] rest[i]).count >= 0
                && rest[i].duration >= 0 by {
                assert(rest[i] == ms[i]);
            }
        }
        assert(m0.count >= 0 && m0.duration >= 0) by {
            assert(ms[ms.len() - 1] == m0);
        }
        lemma_sums_bounded(rest, key);
        lemma_metric_aggregation_sums(rest);
        let m = merge_all_metrics(ms);
        assert(m == merge_metric(prev, m0));
        if exists|j: int| 0 <= j < prev.len() && prev[j].0 == key {
            let j0 = choose|j: int| 0 <= j < prev.len() && prev[j].0 == key;
            assert(total_counts(ms) == total_counts(rest) + m0.count);
            assert(total_durations(ms) == total_durations(rest)
                + m0.duration);
            assert(sum_counts(ms, key) == sum_counts(rest, key) + m0.count);
            assert(sum_durations(ms, key) == sum_durations(rest, key) + m0.duration);
            assert(prev[j0].1.count == sum_counts(rest, key));
            assert(prev[j0].1.duration == sum_durations(rest, key));
            assert(m == prev.update(
                j0,
                (
                    key,
                    MetricDataView {
                        count: (prev[j0].1.count + m0.count) as i64,
                        duration: (prev[j0].1.duration + m0.duration) as i64,
                        ..prev[j0].1
                    },
                ),
            ));
            assert(m[j0].1.count == sum_counts(ms, key));
            assert(m[j0].1.duration == sum_durations(ms, key));
            assert forall|j: int| 0 <= j < m.len() implies (#[trigger] m[j]).1.count == sum_counts(
                ms,
                m[j].0,
            ) && m[j].1.duration == sum_durations(ms, m[j].0) by {
                if j != j0 {
                    assert(m[j] == prev[j]);
                    assert(prev[j].0 != key);
                }
            }
            assert forall|i: int| 0 <= i < ms.len() implies exists|j: int|
                0 <= j < m.len() && m[j].0 == metric_key(#[trigger] ms[i]) by {
                if i < rest.len() {
                    assert(rest[i] == ms[i]);
                    let j = choose|j: int| 0 <= j < prev.len() && prev[j].0 == metric_key(rest[i]);
                    assert(m[j].0 == prev[j].0);
                } else {
                    assert(m[j0].0 == key);
                }
            }
        } else {
            assert forall|i: int| 0 <= i < rest.len() implies metric_key(#[trigger] rest[i]) != key by {
                if metric_key(rest[i]) == key {
                    let j = choose|j: int| 0 <= j < prev.len() && prev[j].0 == metric_key(rest[i]);
                    assert(prev[j].0 == key);
                }
            }
            lemma_sums_absent(rest, key);
            assert forall|j: int| 0 <= j < m.len() implies (#[trigger] m[j]).1.count == sum_counts(
                ms,
                m[j].0,
            ) && m[j].1.duration == sum_durations(ms, m[j].0) by {
                if j < prev.len() {
                    assert(m[j] == prev[j]);
                    assert(prev[j].0 != key);
                }
            }
            assert forall|i: int| 0 <= i < ms.len() implies exists|j: int|
                0 <= j < m.len() && m[j].0 == metric_key(#[trigger] ms[i]) by {
                if i < rest.len() {
                    assert(rest[i] == ms[i]);
                    let j = choose|j: int| 0 <= j < prev.len() && prev[j].0 == metric_key(rest[i]);
                    assert(m[j].0 == prev[j].0);
                } else {
                    assert(m[prev.len() as int].0 == key);
                }
            }
        }
    }
}

} // verus!
