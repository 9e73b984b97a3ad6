use vstd::prelude::*;
use std::time::Instant;

use crate::timing::{
    clock_now, elapsed_since, lemma_total_of_permutation, sorted_spans, span_total, spans_sorted,
    TimeSpan, MAX_NANOS,
};

verus! {

broadcast use vstd::seq_lib::group_to_multiset_ensures;

/// A collection of substatial metrics for this program's logic
/// Assume this enum may gain or lose entries over time
#[derive(Clone, Copy, PartialEq, Eq, Structural, Hash, Debug)]
pub enum Metric {
    ScoreShader,
    DrawShader,
    Initialization,
    CandidatePopulation,
    ScoreIndexSorting,
    CandidateReproduction,
    VideoGeneration,
}

/// Where `m` stands in the list of all metrics.
pub open spec fn metric_index(m: Metric) -> int {
    match m {
        Metric::ScoreShader => 0,
        Metric::DrawShader => 1,
        Metric::Initialization => 2,
        Metric::CandidatePopulation => 3,
        Metric::ScoreIndexSorting => 4,
        Metric::CandidateReproduction => 5,
        Metric::VideoGeneration => 6,
    }
}

/// Every metric, in declaration order.
pub open spec fn all_metrics() -> Seq<Metric> {
    seq![
        Metric::ScoreShader,
        Metric::DrawShader,
        Metric::Initialization,
        Metric::CandidatePopulation,
        Metric::ScoreIndexSorting,
        Metric::CandidateReproduction,
        Metric::VideoGeneration,
    ]
}

/// The display name of a metric.
pub open spec fn metric_name(m: Metric) -> Seq<char> {
    match m {
        Metric::ScoreShader => "Score shader"@,
        Metric::DrawShader => "Draw shader"@,
        Metric::Initialization => "Initialization"@,
        Metric::CandidatePopulation => "Candidate populating"@,
        Metric::ScoreIndexSorting => "Score index sorting"@,
        Metric::CandidateReproduction => "Candidate reproduction"@,
        Metric::VideoGeneration => "Video generation"@,
    }
}

impl Metric {
    /// All the metrics, in declaration order.
    pub fn all() -> (result: [Metric; 7])
        ensures
            result@ == all_metrics(),
    {
        let result = [
            Metric::ScoreShader,
            Metric::DrawShader,
            Metric::Initialization,
            Metric::CandidatePopulation,
            Metric::ScoreIndexSorting,
            Metric::CandidateReproduction,
            Metric::VideoGeneration,
        ];
        assert(result@ =~= all_metrics());
        result
    }

    /// Where this metric stands in [`Metric::all`].
    pub fn index(&self) -> (result: usize)
        ensures
            result == metric_index(*self),
            all_metrics()[result as int] == *self,
    {
        match self {
            Metric::ScoreShader => 0,
            Metric::DrawShader => 1,
            Metric::Initialization => 2,
            Metric::CandidatePopulation => 3,
            Metric::ScoreIndexSorting => 4,
            Metric::CandidateReproduction => 5,
            Metric::VideoGeneration => 6,
        }
    }

    pub fn name(&self) -> (result: &'static str)
        ensures
            result@ == metric_name(*self),
    {
        match self {
            Metric::ScoreShader => "Score shader",
            Metric::DrawShader => "Draw shader",
            Metric::Initialization => "Initialization",
            Metric::CandidatePopulation => "Candidate populating",
            Metric::ScoreIndexSorting => "Score index sorting",
            Metric::CandidateReproduction => "Candidate reproduction",
            Metric::VideoGeneration => "Video generation",
        }
    }
}

/// What has been recorded for one metric.
pub struct StatView {
    /// Every submitted time, in the order it was submitted.
    pub records: Seq<TimeSpan>,
    /// The running total of the submitted times, in nanoseconds.
    pub total: nat,
    /// The tracked minimum, in nanoseconds; it starts at zero.
    pub min: nat,
    /// The tracked maximum, in nanoseconds; it starts at `Duration::MAX`.
    pub max: nat,
}

/// The sheet of a metric before anything is recorded.
pub open spec fn empty_stat() -> StatView {
    StatView { records: Seq::empty(), total: 0, min: 0, max: MAX_NANOS as nat }
}

/// The sheet after `time` is recorded on `s`: the time is appended and added to
/// the total; it replaces the minimum when it is shorter, or else the maximum
/// when it is longer.
pub open spec fn recorded(s: StatView, time: TimeSpan) -> StatView {
    StatView {
        records: s.records.push(time),
        total: s.total + time@,
        min: if time@ < s.min {
            time@
        } else {
            s.min
        },
        max: if time@ < s.min {
            s.max
        } else if time@ > s.max {
            time@
        } else {
            s.max
        },
    }
}

/// Each metric's total is the sum of its records.
pub open spec fn totals_match(v: Map<Metric, StatView>) -> bool {
    forall|m: Metric| #[trigger] v[m].total == span_total(v[m].records)
}

struct Stat {
    records: Vec<TimeSpan>,
    total: TimeSpan,
    min: TimeSpan,
    max: TimeSpan,
}

impl Stat {
    closed spec fn view(&self) -> StatView {
        StatView { records: self.records@, total: self.total@, min: self.min@, max: self.max@ }
    }

    fn default() -> (result: Self)
        ensures
            result.view() == empty_stat(),
    {
        Stat {
            records: Vec::new(),
            total: TimeSpan::zero(),
            min: TimeSpan::zero(),
            max: TimeSpan::max_value(),
        }
    }
}

pub struct RuntimeStats {
    stats: Vec<Stat>,
    /// Used to record the total time the relevant computation took to complete
    /// "relevant" being loading atlases, running scores and ect. Not displaying stats at the end or any niche cleanup
    total_time: Instant,
}

impl View for RuntimeStats {
    type V = Map<Metric, StatView>;

    closed spec fn view(&self) -> Map<Metric, StatView> {
        Map::new(|m: Metric| true, |m: Metric| self.stats@[metric_index(m)].view())
    }
}

impl RuntimeStats {
    /// The sheets are complete, and each keeps its total equal to the sum of its records.
    pub closed spec fn well_formed(&self) -> bool {
        &&& self.stats@.len() == 7
        &&& forall|i: int|
            0 <= i < 7 ==> #[trigger] self.stats@[i].total@ == span_total(
                self.stats@[i].records@,
            )
    }

    /// Initalises the map with an empty statsheet for each metric
    pub fn init() -> (result: Self)
        ensures
            result.well_formed(),
            forall|m: Metric| #[trigger] result@.contains_key(m) && result@[m] == empty_stat(),
            totals_match(result@),
    {
        let mut stats: Vec<Stat> = Vec::new();
        let mut i: usize = 0;
        while i < 7
            invariant
                i <= 7,
                stats@.len() == i,
                forall|k: int| 0 <= k < i ==> #[trigger] stats@[k].view() == empty_stat(),
            decreases 7 - i,
        {
            stats.push(Stat::default());
            i = i + 1;
        }
        let result = RuntimeStats { stats, total_time: clock_now() };
        proof {
            assert(span_total(Seq::<TimeSpan>::empty()) == 0);
            assert forall|k: int| 0 <= k < 7 implies #[trigger] result.stats@[k].total@ == span_total(
                result.stats@[k].records@,
            ) by {
                assert(result.stats@[k].view() == empty_stat());
                assert(result.stats@[k].records@ =~= Seq::<TimeSpan>::empty());
            }
            assert forall|m: Metric| #[trigger] result@[m].total == span_total(
                result@[m].records,
            ) by {
                assert(result@[m] == empty_stat());
            }
        }
        result
    }

    /// Submits a single time to this metric
    pub fn record(&mut self, metric: Metric, time: TimeSpan)
        requires
            old(self).well_formed(),
            old(self)@[metric].total + time@ <= MAX_NANOS,
        ensures
            final(self).well_formed(),
            final(self)@ == old(self)@.insert(metric, recorded(old(self)@[metric], time)),
            totals_match(final(self)@),
    {
        let i = metric.index();
        let mut s = self.stats.remove(i);
        proof {
            assert(s.total@ == span_total(s.records@));
        }
        s.records.push(time);
        s.total = s.total.add(time);
        if time.is_shorter_than(&s.min) {
            s.min = time;
        } else if s.max.is_shorter_than(&time) {
            s.max = time;
        }
        proof {
            assert(s.records@.drop_last() =~= old(self).stats@[i as int].records@);
            assert(s.total@ == span_total(s.records@));
        }
        self.stats.insert(i, s);
        proof {
            assert(final(self)@ =~= old(self)@.insert(metric, recorded(old(self)@[metric], time)));
            assert forall|m: Metric| #[trigger] final(self)@[m].total == span_total(
                final(self)@[m].records,
            ) by {
                if m != metric {
                    assert(final(self)@[m] == old(self)@[m]);
                }
            }
        }
    }
}

impl RuntimeStats {
    /// The total time recorded for a metric.
    pub fn total(&self, metric: Metric) -> (result: TimeSpan)
        requires
            self.well_formed(),
        ensures
            result@ == self@[metric].total,
    {
        self.stats[metric.index()].total
    }

    /// The times recorded for a metric, shortest first.
    pub fn sorted_records(&self, metric: Metric) -> (result: Vec<TimeSpan>)
        requires
            self.well_formed(),
        ensures
            spans_sorted(result@),
            result@.to_multiset() == self@[metric].records.to_multiset(),
    {
        sorted_spans(&self.stats[metric.index()].records)
    }

    /// Every metric, those with the larger total time first; metrics with equal
    /// totals come in no promised order.
    pub fn metrics_by_total(&self) -> (result: Vec<Metric>)
        requires
            self.well_formed(),
        ensures
            result@.to_multiset() == all_metrics().to_multiset(),
            forall|i: int, j: int|
                0 <= i <= j < result@.len() ==> self@[#[trigger] result@[j]].total <= self@[#[trigger] result@[i]].total,
    {
        let all = Metric::all();
        let mut out: Vec<Metric> = Vec::new();
        let mut i: usize = 0;
        while i < 7
            invariant
                i <= 7,
                self.well_formed(),
                all@ == all_metrics(),
                out@.to_multiset() == all_metrics().take(i as int).to_multiset(),
                forall|a: int, b: int|
                    0 <= a <= b < out@.len() ==> self@[#[trigger] out@[b]].total <= self@[#[trigger] out@[a]].total,
            decreases 7 - i,
        {
            let m = all[i];
            let t = self.total(m);
            let mut j: usize = 0;
            while j < out.len() && !self.total(out[j]).is_shorter_than(&t)
                invariant
                    j <= out@.len(),
                    self.well_formed(),
                    t@ == self@[m].total,
                    forall|k: int| 0 <= k < j ==> #[trigger] self@[out@[k]].total >= t@,
                decreases out@.len() - j,
            {
                j = j + 1;
            }
            let ghost before = out@;
            out.insert(j, m);
            proof {
                assert(all_metrics().take(i + 1) =~= all_metrics().take(i as int).push(m));
                assert forall|a: int, b: int| 0 <= a <= b < out@.len() implies self@[
                    #[trigger] out@[b]].total <= self@[#[trigger] out@[a]].total by {
                    if b < j {
                    } else if a > j {
                        assert(out@[a] == before[a - 1]);
                        assert(out@[b] == before[b - 1]);
                    } else if a == j && b == j {
                    } else if a == j {
                        assert(out@[b] == before[b - 1]);
                        assert(self@[before[j as int]].total < t@);
                    } else if b == j {
                        assert(out@[a] == before[a]);
                    } else {
                        assert(out@[a] == before[a]);
                        assert(out@[b] == before[b - 1]);
                    }
                }
            }
            i = i + 1;
        }
        assert(all_metrics().take(7) =~= all_metrics());
        out
    }

    /// The metrics a report shows: those with some time recorded, the larger
    /// total first; metrics with equal totals come in no promised order.
    pub fn reported_metrics(&self) -> (result: Vec<Metric>)
        requires
            self.well_formed(),
        ensures
            forall|m: Metric| result@.contains(m) <==> self@[m].total > 0,
            result@.no_duplicates(),
            forall|i: int, j: int|
                0 <= i <= j < result@.len() ==> self@[#[trigger] result@[j]].total <= self@[#[trigger] result@[i]].total,
    {
        let by_total = self.metrics_by_total();
        proof {
            lemma_every_metric_once(by_total@);
        }
        let mut out: Vec<Metric> = Vec::new();
        let mut k: usize = 0;
        while k < by_total.len()
            invariant
                k <= by_total@.len(),
                self.well_formed(),
                by_total@.no_duplicates(),
                forall|i: int, j: int|
                    0 <= i <= j < by_total@.len() ==> self@[#[trigger] by_total@[j]].total
                        <= self@[#[trigger] by_total@[i]].total,
                forall|m: Metric|
                    out@.contains(m) <==> (by_total@.take(k as int).contains(m) && self@[m].total
                        > 0),
                out@.no_duplicates(),
                forall|a: int, b: int|
                    0 <= a <= b < out@.len() ==> self@[#[trigger] out@[b]].total <= self@[#[trigger] out@[a]].total,
                forall|a: int, k2: int|
                    0 <= a < out@.len() && k <= k2 < by_total@.len() ==> self@[#[trigger] by_total@[k2]].total
                        <= self@[#[trigger] out@[a]].total,
            decreases by_total@.len() - k,
        {
            let m = by_total[k];
            let ghost before = out@;
            let ghost prev = by_total@.take(k as int);
            let ghost next = by_total@.take(k + 1);
            proof {
                assert(next =~= prev.push(m));
                if prev.contains(m) {
                    let j = choose|j: int| 0 <= j < k && prev[j] == m;
                    assert(by_total@[j] == by_total@[k as int]);
                }
            }
            if !self.total(m).is_zero() {
                out.push(m);
                proof {
                    assert forall|x: Metric| out@.contains(x) <==> (next.contains(
                        x,
                    ) && self@[x].total > 0) by {
                        if x == m {
                            assert(out@[out@.len() - 1] == m);
                            assert(next[k as int] == m);
                        } else if out@.contains(x) {
                            let a = choose|a: int| 0 <= a < out@.len() && out@[a] == x;
                            assert(before[a] == x);
                            assert(before.contains(x));
                            let j = choose|j: int| 0 <= j < k && prev[j] == x;
                            assert(next[j] == x);
                        } else if next.contains(x) {
                            let j = choose|j: int| 0 <= j < k + 1 && next[j] == x;
                            assert(prev[j] == x);
                            assert(before.contains(x));
                            let a = choose|a: int| 0 <= a < before.len() && before[a] == x;
                            assert(out@[a] == x);
                        }
                    }
                    assert forall|a: int, b: int| 0 <= a < b < out@.len() implies out@[a]
                        != out@[b] by {
                        if b == out@.len() - 1 {
                            assert(before.contains(out@[a]));
                        } else {
                            assert(before[a] == out@[a] && before[b] == out@[b]);
                        }
                    }
                }
            } else {
                proof {
                    assert forall|x: Metric| out@.contains(x) <==> (next.contains(
                        x,
                    ) && self@[x].total > 0) by {
                        if x != m && next.contains(x) {
                            let j = choose|j: int| 0 <= j < k + 1 && next[j] == x;
                            assert(prev[j] == x);
                        }
                    }
                }
            }
            k = k + 1;
        }
        proof {
            assert(by_total@.take(by_total@.len() as int) =~= by_total@);
        }
        out
    }

    /// The time since the statistics were initialised.
    pub fn total_elapsed(&self) -> TimeSpan {
        elapsed_since(&self.total_time)
    }
}

/// A sequence that holds the metrics as often as `all_metrics` does holds each
/// exactly once.
proof fn lemma_every_metric_once(s: Seq<Metric>)
    requires
        s.to_multiset() == all_metrics().to_multiset(),
    ensures
        s.no_duplicates(),
        forall|m: Metric| #[trigger] s.contains(m),
{
    let all = all_metrics();
    assert forall|i: int| 0 <= i < 7 implies metric_index(#[trigger] all[i]) == i by {}
    assert(all.no_duplicates()) by {
        assert forall|i: int, j: int| 0 <= i < all.len() && 0 <= j < all.len() && i != j implies all[i]
            != all[j] by {
            assert(metric_index(all[i]) == i);
            assert(metric_index(all[j]) == j);
        }
    }
    all.lemma_multiset_has_no_duplicates();
    s.lemma_multiset_has_no_duplicates_conv();
    assert forall|m: Metric| #[trigger] s.contains(m) by {
        let i = metric_index(m);
        assert(all[i] == m);
        assert(all.contains(m));
        assert(all.to_multiset().contains(m));
        assert(s.to_multiset().contains(m));
    }
}

/// Whatever has been recorded, every metric's total is the sum of the times
/// recorded for it.
pub proof fn lemma_totals_are_sums(stats: &RuntimeStats)
    requires
        stats.well_formed(),
    ensures
        totals_match(stats@),
{
    assert forall|m: Metric| #[trigger] stats@[m].total == span_total(stats@[m].records) by {
        assert(stats.stats@[metric_index(m)].total@ == span_total(
            stats.stats@[metric_index(m)].records@,
        ));
    }
}

} // verus!
