use cat_client::aggregator_event::{event_batch_data, event_report, EventAggregator, EventData};
use cat_client::aggregator_metric::{AggregatorMetric, MetricData};
use cat_client::aggregator_transaction::{
    encode_transaction_data, transaction_report, TransactionAggregator, TransactionData,
};
use cat_client::consts;
use cat_client::message::{Event, Message, MessageData};
use cat_client::transaction::DefaultTransaction;

fn transaction(t: &str, n: &str, status: &'static str, millis: i64) -> DefaultTransaction {
    let mut tr = DefaultTransaction::with_name(t.to_string(), n.to_string(), 1000);
    tr.set_status(status);
    tr.set_duration_in_millis(millis);
    tr
}

#[test]
fn compute_duration_buckets() {
    let cases: [(i64, i64); 20] = [
        (-5, 1),
        (0, 1),
        (1, 1),
        (5, 5),
        (19, 19),
        (20, 20),
        (23, 20),
        (199, 195),
        (230, 220),
        (499, 480),
        (1234, 1200),
        (2345, 2000),
        (19999, 19500),
        (123456, 120000),
        (999999, 990000),
        (1000000, 1048576),
        (1048577, 2097152),
        (3000000, 4194304),
        (3600000, 4194304),
        (3600001, 3600000),
    ];
    for (d, b) in cases {
        assert_eq!(TransactionData::compute_duration(d), b, "{}", d);
    }
}

#[test]
fn bucket_is_at_most_the_duration_below_a_million() {
    for d in (1..1000000i64).step_by(997) {
        let b = TransactionData::compute_duration(d);
        assert!(1 <= b && b <= d);
    }
    for d in (1000000..=3600000i64).step_by(99991) {
        let b = TransactionData::compute_duration(d);
        assert!(d <= b && b < 2 * d);
    }
}

#[test]
fn transaction_data_counts_and_encodes() {
    let t = "URL".to_string();
    let n = "home".to_string();
    let mut data = TransactionData::new(&t, &n);
    data.add(&transaction("URL", "home", consts::CAT_SUCCESS, 5));
    data.add(&transaction("URL", "home", consts::CAT_ERROR, 5));
    data.add(&transaction("URL", "home", consts::CAT_SUCCESS, 23));
    assert_eq!(data.get_count(), 3);
    assert_eq!(data.get_fail(), 1);
    assert_eq!(data.get_sum(), 33);
    // A bucket already there grows by its own value.
    assert_eq!(data.get_durations().clone(), vec![(5, 6), (20, 1)]);
    assert_eq!(
        encode_transaction_data(&data),
        vec![64, 1, 51, 59, 1, 49, 59, 2, 51, 51, 59, 1, 53, 44, 1, 54, 124, 2, 50, 48, 44, 1, 49]
    );
}

#[test]
fn empty_transaction_data_encoding() {
    let data = TransactionData::new(&"a".to_string(), &"b".to_string());
    assert_eq!(encode_transaction_data(&data), vec![64, 1, b'0', 59, 1, b'0', 59, 1, b'0', 59]);
}

#[test]
fn counters_wrap_around() {
    let mut data = TransactionData::new(&"a".to_string(), &"b".to_string());
    data.add(&transaction("a", "b", consts::CAT_SUCCESS, i64::MAX));
    data.add(&transaction("a", "b", consts::CAT_SUCCESS, 1));
    assert_eq!(data.get_sum(), i64::MIN);
}

#[test]
fn aggregator_merges_by_type_and_name() {
    let mut agg = TransactionAggregator::new();
    agg.put_or_merge(&transaction("URL", "a", consts::CAT_SUCCESS, 1));
    agg.put_or_merge(&transaction("URL", "b", consts::CAT_ERROR, 2));
    agg.put_or_merge(&transaction("URL", "a", consts::CAT_ERROR, 3));
    let map = agg.get_data_map();
    assert_eq!(map.len(), 2);
    assert_eq!(map[0].0, b"URL-a".to_vec());
    assert_eq!(map[0].1.get_count(), 2);
    assert_eq!(map[0].1.get_fail(), 1);
    assert_eq!(map[0].1.get_sum(), 4);
    assert_eq!(map[1].0, b"URL-b".to_vec());
    assert_eq!(map[1].1.get_count(), 1);
    assert_eq!(map[1].1.get_fail(), 1);
}

#[test]
fn keys_that_format_alike_merge() {
    let mut agg = TransactionAggregator::new();
    agg.put_or_merge(&transaction("a-b", "c", consts::CAT_SUCCESS, 1));
    agg.put_or_merge(&transaction("a", "b-c", consts::CAT_SUCCESS, 1));
    let map = agg.get_data_map();
    assert_eq!(map.len(), 1);
    assert_eq!(map[0].1.get_count(), 2);
    assert_eq!(map[0].1.get_type(), "a-b");
    assert_eq!(map[0].1.get_name(), "c");
}

#[test]
fn aggregation_counts_what_it_was_handed() {
    let mut agg = TransactionAggregator::new();
    let names = ["x", "y", "z"];
    let mut expected = [0i64; 3];
    let mut failed = [0i64; 3];
    for i in 0..50usize {
        let k = (i * 7) % 3;
        let status = if i % 4 == 0 { consts::CAT_ERROR } else { consts::CAT_SUCCESS };
        expected[k] += 1;
        if i % 4 == 0 {
            failed[k] += 1;
        }
        agg.put_or_merge(&transaction("T", names[k], status, i as i64));
    }
    for (key, data) in agg.get_data_map().iter() {
        let k = names.iter().position(|n| format!("T-{}", n).into_bytes() == *key).unwrap();
        assert_eq!(data.get_count(), expected[k]);
        assert_eq!(data.get_fail(), failed[k]);
    }
    assert_eq!(agg.get_data_map().len(), 3);
}

#[test]
fn collect_takes_everything_and_resets() {
    let mut agg = TransactionAggregator::new();
    assert!(transaction_report(&agg.collect(), 5).is_none());
    agg.put_or_merge(&transaction("URL", "a", consts::CAT_SUCCESS, 1));
    agg.put_or_merge(&transaction("SQL", "q", consts::CAT_SUCCESS, 20));
    let data = agg.collect();
    assert_eq!(data.len(), 2);
    assert_eq!(agg.get_data_map().len(), 0);
    let report = transaction_report(&data, 77).unwrap();
    assert_eq!(report.get_type(), consts::TYPE_SYSTEM);
    assert_eq!(report.get_name(), consts::NAME_TRANSACTION_AGGREGATOR);
    assert_eq!(report.message_data().get_time(), 77);
    assert_eq!(report.get_duration(), 0);
    assert_eq!(report.get_children().len(), 2);
    match &report.get_children()[1] {
        Message::Transaction(t) => {
            assert_eq!(t.get_type(), "SQL");
            assert_eq!(t.get_name(), "q");
            assert_eq!(t.message_data().get_data().clone(), encode_transaction_data(&data[1].1));
        }
        _ => panic!("not a transaction"),
    }
}

#[test]
fn event_data_and_batch_text() {
    let mut d = EventData::new(&"E".to_string(), &"n".to_string());
    d.add(&Event::new("E".to_string(), "n".to_string(), 1));
    let mut failed = MessageData::new("E".to_string(), "n".to_string(), 2);
    failed.set_status(consts::CAT_ERROR);
    d.add(&Event::from_data(failed));
    assert_eq!(d.get_count(), 2);
    assert_eq!(d.get_fail(), 1);
    assert_eq!(event_batch_data(&d), b"642641".to_vec());
}

#[test]
fn event_aggregator_merges_and_reports() {
    let mut agg = EventAggregator::new();
    agg.put_or_merge(&Event::new("E".to_string(), "a".to_string(), 1));
    agg.put_or_merge(&Event::new("E".to_string(), "a".to_string(), 2));
    agg.put_or_merge(&Event::new("E".to_string(), "b".to_string(), 3));
    assert_eq!(agg.get_data_map().len(), 2);
    assert_eq!(agg.get_data_map()[0].0, b"E,a".to_vec());
    assert_eq!(agg.get_data_map()[0].1.get_count(), 2);
    let data = agg.collect();
    assert_eq!(agg.get_data_map().len(), 0);
    let report = event_report(&data, 9).unwrap();
    assert_eq!(report.get_duration(), 0);
    assert_eq!(report.get_children().len(), 2);
    match &report.get_children()[0] {
        Message::Event(e) => {
            assert_eq!(e.get_type(), "E");
            assert_eq!(e.get_name(), "a");
            assert_eq!(e.get_data().clone(), b"642640".to_vec());
            assert_eq!(e.get_time(), 9);
        }
        _ => panic!("not an event"),
    }
    assert!(event_report(&Vec::new(), 9).is_none());
}

#[test]
fn metric_aggregator_sums_per_name() {
    let mut agg = AggregatorMetric::new();
    agg.put_or_merge(MetricData::new("t".to_string(), "n".to_string(), 1, 10));
    agg.put_or_merge(MetricData::new("u".to_string(), "n".to_string(), 2, 5));
    agg.put_or_merge(MetricData::new("t".to_string(), "m".to_string(), 4, 4));
    let map = agg.get_data_map();
    assert_eq!(map.len(), 2);
    assert_eq!(map[0].0, b"n".to_vec());
    assert_eq!(map[0].1.get_count(), 3);
    assert_eq!(map[0].1.get_duration(), 15);
    assert_eq!(map[0].1.get_type(), "t");
    assert_eq!(map[1].1.get_name(), "m");
}

#[test]
fn event_aggregation_counts_what_it_was_handed() {
    let mut agg = EventAggregator::new();
    let mut counts = [0i64; 2];
    let mut fails = [0i64; 2];
    for i in 0..30usize {
        let k = i % 2;
        let mut m = MessageData::new("E".to_string(), format!("n{}", k), i as i64);
        if i % 3 == 0 {
            m.set_status(consts::CAT_ERROR);
            fails[k] += 1;
        }
        counts[k] += 1;
        agg.put_or_merge(&Event::from_data(m));
    }
    let map = agg.get_data_map();
    assert_eq!(map.len(), 2);
    for k in 0..2usize {
        assert_eq!(map[k].0, format!("E,n{}", k).into_bytes());
        assert_eq!(map[k].1.get_count(), counts[k]);
        assert_eq!(map[k].1.get_fail(), fails[k]);
    }
}

#[test]
fn metric_aggregation_sums_what_it_was_handed() {
    let mut agg = AggregatorMetric::new();
    let mut total = [(0i64, 0i64); 3];
    for i in 0..40i64 {
        let k = (i % 3) as usize;
        total[k].0 += i;
        total[k].1 += 2 * i;
        agg.put_or_merge(MetricData::new("t".to_string(), format!("m{}", k), i, 2 * i));
    }
    let map = agg.get_data_map();
    assert_eq!(map.len(), 3);
    for k in 0..3usize {
        assert_eq!(map[k].0, format!("m{}", k).into_bytes());
        assert_eq!(map[k].1.get_count(), total[k].0);
        assert_eq!(map[k].1.get_duration(), total[k].1);
    }
}
