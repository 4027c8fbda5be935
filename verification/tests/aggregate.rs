use std::collections::HashMap;

use vtuber_stats::aggregate::{
    stats_pair, stream_summary, timestamp_index, Archive, Counts, StatData, StatResponse, Summary,
    UpstatData, UpstatResponse,
};
use vtuber_stats::error::Error;

fn counts(entries: &[(&str, u64)]) -> Counts {
    let mut counts = Counts::new();
    for (label, count) in entries {
        counts.insert(String::from(*label), *count);
    }
    counts
}

#[test]
fn timestamp_index_sorts_the_keys() {
    let mut raw: HashMap<i64, bool> = HashMap::new();
    raw.insert(300, true);
    raw.insert(100, false);
    raw.insert(200, true);
    assert_eq!(timestamp_index(&raw), vec![100, 200, 300]);
}

#[test]
fn timestamp_index_of_nothing_is_empty() {
    let raw: HashMap<i64, bool> = HashMap::new();
    assert_eq!(timestamp_index(&raw), Vec::<i64>::new());
}

#[test]
fn timestamp_index_ignores_the_values_and_orders_negative_keys() {
    let mut raw: HashMap<i64, bool> = HashMap::new();
    for key in [5i64, -3, i64::MAX, 0, i64::MIN, 1_590_000_000, -1] {
        raw.insert(key, key % 2 == 0);
    }
    assert_eq!(
        timestamp_index(&raw),
        vec![i64::MIN, -3, -1, 0, 5, 1_590_000_000, i64::MAX]
    );
}

#[test]
fn timestamp_index_over_many_keys_is_ascending_and_complete() {
    let mut raw: HashMap<i64, bool> = HashMap::new();
    let mut key: i64 = 17;
    for _ in 0..2_000 {
        key = (key * 7_919 + 104_729) % 1_000_003;
        raw.insert(key, true);
    }
    let index = timestamp_index(&raw);
    assert_eq!(index.len(), raw.len());
    for pair in index.windows(2) {
        assert!(pair[0] < pair[1]);
    }
    for key in &index {
        assert!(raw.contains_key(key));
    }
}

#[test]
fn stream_summary_gives_floor_mean_and_peak() {
    assert_eq!(
        stream_summary(&counts(&[("a", 5), ("b", 15), ("c", 10)])),
        Ok(Summary { mean: 10, max: 15 })
    );
    assert_eq!(
        stream_summary(&counts(&[("a", 1), ("b", 2)])),
        Ok(Summary { mean: 1, max: 2 })
    );
    assert_eq!(stream_summary(&counts(&[("only", 7)])), Ok(Summary { mean: 7, max: 7 }));
    assert_eq!(
        stream_summary(&counts(&[("a", 0), ("b", 0), ("c", 0)])),
        Ok(Summary { mean: 0, max: 0 })
    );
}

#[test]
fn stream_summary_over_nothing_is_an_error() {
    assert_eq!(stream_summary(&Counts::new()), Err(Error::EmptyInput));
}

#[test]
fn stream_summary_does_not_overflow() {
    assert_eq!(
        stream_summary(&counts(&[("a", u64::MAX), ("b", u64::MAX), ("c", u64::MAX - 3)])),
        Ok(Summary { mean: u64::MAX - 1, max: u64::MAX })
    );
}

#[test]
fn counts_keep_one_observation_per_label() {
    let mut counts = Counts::new();
    assert_eq!(counts.len(), 0);
    assert_eq!(counts.insert(String::from("a"), 5), None);
    assert_eq!(counts.insert(String::from("b"), 15), None);
    assert_eq!(counts.insert(String::from("a"), 25), Some(5));
    assert_eq!(counts.len(), 2);
    assert_eq!(stream_summary(&counts), Ok(Summary { mean: 20, max: 25 }));
    assert_eq!(counts.insert(String::from("a"), 1), Some(25));
    assert_eq!(stream_summary(&counts), Ok(Summary { mean: 8, max: 15 }));
}

#[test]
fn stats_pair_projects_the_two_fields() {
    let stat = StatResponse { data: StatData { follower: 1_234 } };
    let upstat = UpstatResponse { data: UpstatData { archive: Archive { view: 56_789 } } };
    assert_eq!(stats_pair(&stat, &upstat), (1_234, 56_789));
    let stat = StatResponse { data: StatData { follower: -1 } };
    let upstat = UpstatResponse { data: UpstatData { archive: Archive { view: i32::MAX } } };
    assert_eq!(stats_pair(&stat, &upstat), (-1, i32::MAX));
}
