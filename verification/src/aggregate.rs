//! Aggregates over raw per-channel payloads: the index of snapshot
//! timestamps, the mean and peak of a stream's viewer counts, and the pair of
//! figures drawn from two independent payloads.

use std::collections::HashMap;
use vstd::prelude::*;
use vstd::std_specs::hash::spec_keys_iter;
use vstd::std_specs::iter::IteratorSpec;

use crate::error::Error;

verus! {

/// Whether each element is smaller than all that follow it.
pub open spec fn ascending(s: Seq<i64>) -> bool {
    forall|i: int, j: int| 0 <= i < j < s.len() ==> s[i] < s[j]
}

/// Puts `key` in its place in an ascending vector that does not hold it.
fn insert_ascending(out: &mut Vec<i64>, key: i64)
    requires
        ascending(old(out)@),
        !old(out)@.contains(key),
    ensures
        ascending(final(out)@),
        final(out)@.len() == old(out)@.len() + 1,
        forall|k: i64| final(out)@.contains(k) <==> (old(out)@.contains(k) || k == key),
{
    let mut low: usize = 0;
    let mut high: usize = out.len();
    while low < high
        invariant
            low <= high <= out@.len(),
            out@ == old(out)@,
            ascending(out@),
            !out@.contains(key),
            forall|i: int| 0 <= i < low ==> out@[i] < key,
            forall|i: int| high <= i < out@.len() ==> key < out@[i],
        decreases high - low,
    {
        let mid: usize = low + (high - low) / 2;
        assert(out@.contains(out@[mid as int]));
        if out[mid] < key {
            low = mid + 1;
        } else {
            high = mid;
        }
    }
    out.insert(low, key);
    proof {
        let before = old(out)@;
        let after = out@;
        assert(after[low as int] == key);
        assert forall|k: i64| after.contains(k) <==> (before.contains(k) || k == key) by {
            if after.contains(k) {
                let i = choose|i: int| 0 <= i < after.len() && after[i] == k;
                if i < low {
                    assert(before[i] == k);
                } else if i > low {
                    assert(before[i - 1] == k);
                }
            }
            if before.contains(k) {
                let i = choose|i: int| 0 <= i < before.len() && before[i] == k;
                if i < low {
                    assert(after[i] == k);
                } else {
                    assert(after[i + 1] == k);
                }
            }
        }
    }
}

/// The keys of `raw` in ascending order, whatever they map to.
pub fn timestamp_index(raw: &HashMap<i64, bool>) -> (index: Vec<i64>)
    ensures
        ascending(index@),
        index@.len() == raw@.dom().len(),
        forall|k: i64| index@.contains(k) <==> raw@.contains_key(k),
{
    broadcast use vstd::std_specs::hash::group_hash_axioms;

    let mut index: Vec<i64> = Vec::new();
    let ghost keys = spec_keys_iter(raw).remaining();
    for key in iter: raw.keys()
        invariant
            iter.seq() == keys,
            keys.no_duplicates(),
            ascending(index@),
            index@.len() == iter.index(),
            forall|k: i64|
                index@.contains(k) <==> exists|j: int|
                    0 <= j < iter.index() && *#[trigger] keys[j] == k,
    {
        let ghost at = iter.index();
        proof {
            if index@.contains(*key) {
                let j = choose|j: int| 0 <= j < at && *#[trigger] keys[j] == *key;
                assert(keys[j] == keys[at]);
            }
        }
        let ghost before = index@;
        insert_ascending(&mut index, *key);
        proof {
            assert forall|k: i64|
                index@.contains(k) <==> exists|j: int|
                    0 <= j < at + 1 && *#[trigger] keys[j] == k by {
                if before.contains(k) {
                    let j = choose|j: int| 0 <= j < at && *#[trigger] keys[j] == k;
                    assert(0 <= j < at + 1 && *keys[j] == k);
                }
                if k == *key {
                    assert(*keys[at] == k);
                }
                if exists|j: int| 0 <= j < at + 1 && *#[trigger] keys[j] == k {
                    let j = choose|j: int| 0 <= j < at + 1 && *#[trigger] keys[j] == k;
                    if j < at {
                        assert(before.contains(k));
                    }
                }
            }
        }
    }
    proof {
        assert(keys.unref().to_set() == raw@.dom());
        assert forall|k: i64| index@.contains(k) <==> raw@.contains_key(k) by {
            if index@.contains(k) {
                let j = choose|j: int| 0 <= j < keys.len() && *#[trigger] keys[j] == k;
                assert(keys.unref()[j] == k);
                assert(keys.unref().to_set().contains(k));
            }
            if raw@.contains_key(k) {
                assert(keys.unref().to_set().contains(k));
                let j = choose|j: int| 0 <= j < keys.unref().len() && keys.unref()[j] == k;
                assert(*keys[j] == k);
            }
        }
    }
    index
}

/// The viewer counts observed over one stream, each under the label it was
/// recorded with. No label occurs twice.
#[derive(Debug, Clone, PartialEq, Eq)]
pub struct Counts {
    entries: Vec<(String, u64)>,
}

impl View for Counts {
    type V = Seq<(Seq<char>, u64)>;

    closed spec fn view(&self) -> Seq<(Seq<char>, u64)> {
        self.entries@.map_values(|e: (String, u64)| (e.0@, e.1))
    }
}

/// Whether no two entries carry the same label.
pub open spec fn distinct_labels(entries: Seq<(Seq<char>, u64)>) -> bool {
    forall|i: int, j: int| 0 <= i < j < entries.len() ==> entries[i].0 != entries[j].0
}

/// The counts of the entries, without their labels.
pub open spec fn counts_of(entries: Seq<(Seq<char>, u64)>) -> Seq<u64> {
    entries.map_values(|e: (Seq<char>, u64)| e.1)
}

/// The sum of the counts.
pub open spec fn total(counts: Seq<u64>) -> int
    decreases counts.len(),
{
    if counts.len() == 0 {
        0
    } else {
        total(counts.drop_last()) + counts.last()
    }
}

/// Whether `peak` is one of the counts and none is larger.
pub open spec fn is_peak(counts: Seq<u64>, peak: u64) -> bool {
    counts.contains(peak) && forall|i: int| 0 <= i < counts.len() ==> counts[i] <= peak
}

/// The largest of the counts (zero where there are none).
pub open spec fn peak(counts: Seq<u64>) -> u64
    decreases counts.len(),
{
    if counts.len() == 0 {
        0
    } else if counts.len() == 1 || counts.last() > peak(counts.drop_last()) {
        counts.last()
    } else {
        peak(counts.drop_last())
    }
}

/// The mean of the counts, rounded down (zero where there are none).
pub open spec fn mean(counts: Seq<u64>) -> int {
    if counts.len() == 0 {
        0
    } else {
        total(counts) / (counts.len() as int)
    }
}

/// Mean and peak of one stream's viewer counts.
#[derive(Debug, Clone, Copy, PartialEq, Eq, Structural)]
pub struct Summary {
    pub mean: u64,
    pub max: u64,
}

impl Counts {
    /// The invariant: labels are pairwise distinct.
    pub open spec fn wf(&self) -> bool {
        distinct_labels(self@)
    }

    /// No observations.
    pub fn new() -> (counts: Counts)
        ensures
            counts.wf(),
            counts@ == Seq::<(Seq<char>, u64)>::empty(),
    {
        let counts = Counts { entries: Vec::new() };
        assert(counts@ =~= Seq::empty());
        counts
    }

    /// The number of observations.
    pub fn len(&self) -> (n: usize)
        ensures
            n == self@.len(),
    {
        self.entries.len()
    }

    /// Records `count` under `label`. An observation already recorded under
    /// that label is replaced, and its count returned; a new label is added
    /// at the end.
    pub fn insert(&mut self, label: String, count: u64) -> (previous: Option<u64>)
        requires
            old(self).wf(),
        ensures
            final(self).wf(),
            match previous {
                Some(before) => exists|k: int|
                    0 <= k < old(self)@.len() && #[trigger] old(self)@[k] == (label@, before)
                        && final(self)@ == old(self)@.update(k, (label@, count)),
                None => (forall|k: int|
                    0 <= k < old(self)@.len() ==> (#[trigger] old(self)@[k]).0 != label@)
                    && final(self)@ == old(self)@.push((label@, count)),
            },
    {
        let mut i: usize = 0;
        while i < self.entries.len()
            invariant
                i <= self.entries@.len(),
                *self == *old(self),
                old(self).wf(),
                forall|k: int| 0 <= k < i ==> (#[trigger] self@[k]).0 != label@,
            decreases self.entries@.len() - i,
        {
            if self.entries[i].0 == label {
                let before: u64 = self.entries[i].1;
                let ghost label_view = label@;
                assert(self@[i as int] == (label_view, before));
                self.entries.set(i, (label, count));
                proof {
                    assert(self@ =~= old(self)@.update(i as int, (label_view, count)));
                    assert forall|a: int, b: int| 0 <= a < b < self@.len() implies self@[a].0
                        != self@[b].0 by {
                        assert(old(self)@[a].0 != old(self)@[b].0);
                    }
                }
                return Some(before);
            }
            assert(self@[i as int].0 != label@);
            i = i + 1;
        }
        let ghost label_view = label@;
        self.entries.push((label, count));
        proof {
            assert(self@ =~= old(self)@.push((label_view, count)));
            assert forall|a: int, b: int| 0 <= a < b < self@.len() implies self@[a].0
                != self@[b].0 by {
                if b < old(self)@.len() {
                    assert(old(self)@[a].0 != old(self)@[b].0);
                } else {
                    assert(old(self)@[a].0 != label_view);
                }
            }
        }
        None
    }
}

/// Mean and peak of the counts: the mean is the sum divided by the number of
/// observations, rounded down; the peak is the largest count. Over no
/// observations there is neither, and the error is [`Error::EmptyInput`].
pub fn stream_summary(observations: &Counts) -> (result: Result<Summary, Error>)
    ensures
        match result {
            Ok(summary) => {
                let counts = counts_of(observations@);
                &&& counts.len() > 0
                &&& summary.mean == mean(counts)
                &&& summary.max == peak(counts)
            },
            Err(error) => error == Error::EmptyInput && observations@.len() == 0,
        },
{
    let n: usize = observations.entries.len();
    if n == 0 {
        return Err(Error::EmptyInput);
    }
    let ghost counts = counts_of(observations@);
    let mut sum: u128 = 0;
    let mut max: u64 = observations.entries[0].1;
    let mut i: usize = 0;
    assert(counts.take(0) =~= Seq::<u64>::empty());
    while i < n
        invariant
            n == observations.entries@.len(),
            n == counts.len(),
            n > 0,
            i <= n,
            counts == counts_of(observations@),
            sum == total(counts.take(i as int)),
            sum <= i * 0xffff_ffff_ffff_ffff,
            i == 0 ==> max == counts[0],
            i > 0 ==> max == peak(counts.take(i as int)),
        decreases n - i,
    {
        let count: u64 = observations.entries[i].1;
        proof {
            assert(count == counts[i as int]);
            let grown = counts.take(i + 1);
            assert(grown.drop_last() =~= counts.take(i as int));
            assert(grown.last() == count);
        }
        sum = sum + count as u128;
        if count > max {
            max = count;
        }
        i = i + 1;
    }
    assert(counts.take(n as int) =~= counts);
    proof {
        lemma_peak_is_largest(counts);
        lemma_mean_at_most_peak(counts, max);
    }
    let mean: u64 = (sum / n as u128) as u64;
    Ok(Summary { mean, max })
}

/// The sum of counts that are all at most `bound` is at most their number
/// times `bound`.
proof fn lemma_total_bounded(counts: Seq<u64>, bound: u64)
    requires
        forall|i: int| 0 <= i < counts.len() ==> counts[i] <= bound,
    ensures
        0 <= total(counts) <= counts.len() * bound,
    decreases counts.len(),
{
    if counts.len() > 0 {
        lemma_total_bounded(counts.drop_last(), bound);
        assert(total(counts.drop_last()) + counts.last() <= (counts.len() - 1) * bound + bound);
        assert((counts.len() - 1) * bound + bound == counts.len() * bound) by (nonlinear_arith);
    }
}

/// The peak of counts is one of them, and none is larger.
pub proof fn lemma_peak_is_largest(counts: Seq<u64>)
    requires
        counts.len() > 0,
    ensures
        is_peak(counts, peak(counts)),
    decreases counts.len(),
{
    let front = counts.drop_last();
    if counts.len() == 1 {
        assert(counts[0] == peak(counts));
    } else {
        lemma_peak_is_largest(front);
        let w = choose|w: int| 0 <= w < front.len() && front[w] == peak(front);
        assert(counts[w] == peak(front));
        assert(counts[counts.len() - 1] == counts.last());
        assert forall|i: int| 0 <= i < counts.len() implies counts[i] <= peak(counts) by {
            if i < front.len() {
                assert(front[i] == counts[i]);
            }
        }
    }
}

/// The mean of counts lies between zero and their peak.
pub proof fn lemma_mean_at_most_peak(counts: Seq<u64>, peak: u64)
    requires
        counts.len() > 0,
        is_peak(counts, peak),
    ensures
        0 <= total(counts) / (counts.len() as int) <= peak,
{
    lemma_total_bounded(counts, peak);
    let n = counts.len() as int;
    let t = total(counts);
    assert(0 <= t / n <= peak) by (nonlinear_arith)
        requires
            n > 0,
            0 <= t <= n * peak,
    ;
}

/// The follower figure as the social platform's relation endpoint wraps it.
#[derive(Debug, Clone, Copy, PartialEq, Eq, Structural)]
pub struct StatData {
    pub follower: i32,
}

/// A decoded answer of the relation endpoint.
#[derive(Debug, Clone, Copy, PartialEq, Eq, Structural)]
pub struct StatResponse {
    pub data: StatData,
}

/// The cumulative view figure of a user's uploads.
#[derive(Debug, Clone, Copy, PartialEq, Eq, Structural)]
pub struct Archive {
    pub view: i32,
}

/// The part of the space endpoint's answer that holds the upload figures.
#[derive(Debug, Clone, Copy, PartialEq, Eq, Structural)]
pub struct UpstatData {
    pub archive: Archive,
}

/// A decoded answer of the space endpoint.
#[derive(Debug, Clone, Copy, PartialEq, Eq, Structural)]
pub struct UpstatResponse {
    pub data: UpstatData,
}

/// Follower count and view count, each taken from its own payload.
pub fn stats_pair(stat: &StatResponse, upstat: &UpstatResponse) -> (pair: (i32, i32))
    ensures
        pair == (stat.data.follower, upstat.data.archive.view),
{
    (stat.data.follower, upstat.data.archive.view)
}

} // verus!
