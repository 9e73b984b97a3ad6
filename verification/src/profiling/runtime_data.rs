use vstd::prelude::*;

use crate::timing::{
    lemma_total_of_permutation, sorted_spans, span_total, spans_sorted, sum_spans, TimeSpan,
    MAX_NANOS,
};

verus! {

broadcast use vstd::seq_lib::group_to_multiset_ensures;

/// The frame times kept by [`RuntimeData`], each in the order it was added.
pub struct RuntimeDataView {
    pub evo_times: Seq<TimeSpan>,
    pub iter_times: Seq<TimeSpan>,
    pub score_shader_times: Seq<TimeSpan>,
    pub draw_shader_times: Seq<TimeSpan>,
}

/// Average, shortest and longest of one list of times.
pub struct TimeSummary {
    pub average: TimeSpan,
    pub min: TimeSpan,
    pub max: TimeSpan,
}

/// Everything the end-of-run report shows.
pub struct RuntimeSummary {
    pub evolution: TimeSummary,
    pub iteration: TimeSummary,
    pub score_shader: TimeSummary,
    /// The score shader's average divided by the candidates per generation.
    pub score_shader_scaled: TimeSpan,
    pub draw_shader: TimeSummary,
    /// The draw shader's average divided by the candidates per generation.
    pub draw_shader_scaled: TimeSpan,
}

/// `s` may be summarised: the sum stays in range and the length, cut to 32 bits
/// as the division by a `u32` count cuts it, is not zero.
pub open spec fn summarisable(s: Seq<TimeSpan>) -> bool {
    &&& span_total(s) <= MAX_NANOS
    &&& (s.len() as u32) != 0
}

/// `r` summarises the times `s`.
pub open spec fn summarises(r: TimeSummary, s: Seq<TimeSpan>) -> bool {
    &&& r.average@ == span_total(s) / ((s.len() as u32) as int)
    &&& s.contains(r.min)
    &&& s.contains(r.max)
    &&& forall|i: int| 0 <= i < s.len() ==> r.min@ <= #[trigger] s[i]@ && s[i]@ <= r.max@
}

// Stores frame times for each main iteration and evolution cycle for display after program completion
pub struct RuntimeData {
    evo_times: Vec<TimeSpan>,
    iter_times: Vec<TimeSpan>,
    score_shader_times: Vec<TimeSpan>,
    draw_shader_times: Vec<TimeSpan>,
}

impl View for RuntimeData {
    type V = RuntimeDataView;

    closed spec fn view(&self) -> RuntimeDataView {
        RuntimeDataView {
            evo_times: self.evo_times@,
            iter_times: self.iter_times@,
            score_shader_times: self.score_shader_times@,
            draw_shader_times: self.draw_shader_times@,
        }
    }
}

/// Sorts one list in place and summarises it.
fn summarise(times: &mut Vec<TimeSpan>) -> (result: TimeSummary)
    requires
        summarisable(old(times)@),
    ensures
        spans_sorted(final(times)@),
        final(times)@.to_multiset() == old(times)@.to_multiset(),
        summarises(result, old(times)@),
{
    let sorted = sorted_spans(times);
    proof {
        lemma_total_of_permutation(sorted@, old(times)@);
    }
    *times = sorted;
    proof {
        assert(times@.len() == old(times)@.len()) by {
            assert(times@.to_multiset().len() == old(times)@.to_multiset().len());
        }
        if times@.len() == 0 {
            assert((0usize as u32) == 0);
        }
    }
    let total = sum_spans(times);
    let count = times.len() as u32;
    let average = total.div(count);
    let min = times[0];
    let max = times[times.len() - 1];
    proof {
        let s = old(times)@;
        let t = final(times)@;
        assert(t.len() == s.len()) by {
            assert(t.to_multiset().len() == s.to_multiset().len());
        }
        assert(t.contains(min));
        assert(t.contains(max));
        assert(s.contains(min)) by {
            assert(t.to_multiset().count(min) > 0);
        }
        assert(s.contains(max)) by {
            assert(t.to_multiset().count(max) > 0);
        }
        assert forall|i: int| 0 <= i < s.len() implies min@ <= #[trigger] s[i]@ && s[i]@
            <= max@ by {
            assert(s.contains(s[i]));
            assert(s.to_multiset().count(s[i]) > 0);
            assert(t.contains(s[i]));
            let k = choose|k: int| 0 <= k < t.len() && t[k] == s[i];
            assert(t[0]@ <= t[k]@);
            assert(t[k]@ <= t[t.len() - 1]@);
        }
    }
    TimeSummary { average, min, max }
}

impl RuntimeData {
    pub fn new() -> (result: Self)
        ensures
            result@.evo_times == Seq::<TimeSpan>::empty(),
            result@.iter_times == Seq::<TimeSpan>::empty(),
            result@.score_shader_times == Seq::<TimeSpan>::empty(),
            result@.draw_shader_times == Seq::<TimeSpan>::empty(),
    {
        RuntimeData {
            evo_times: Vec::new(),
            iter_times: Vec::new(),
            score_shader_times: Vec::new(),
            draw_shader_times: Vec::new(),
        }
    }

    pub fn add_evo_time(&mut self, t: TimeSpan)
        ensures
            final(self)@ == (RuntimeDataView {
                evo_times: old(self)@.evo_times.push(t),
                ..old(self)@
            }),
    {
        self.evo_times.push(t);
    }

    pub fn add_iter_time(&mut self, t: TimeSpan)
        ensures
            final(self)@ == (RuntimeDataView {
                iter_times: old(self)@.iter_times.push(t),
                ..old(self)@
            }),
    {
        self.iter_times.push(t);
    }

    pub fn add_score_shader_time(&mut self, t: TimeSpan)
        ensures
            final(self)@ == (RuntimeDataView {
                score_shader_times: old(self)@.score_shader_times.push(t),
                ..old(self)@
            }),
    {
        self.score_shader_times.push(t);
    }

    pub fn add_draw_shader_time(&mut self, t: TimeSpan)
        ensures
            final(self)@ == (RuntimeDataView {
                draw_shader_times: old(self)@.draw_shader_times.push(t),
                ..old(self)@
            }),
    {
        self.draw_shader_times.push(t);
    }

    /// The evolution cycle times, in the order they were added.
    pub fn evo_times(&self) -> (result: &Vec<TimeSpan>)
        ensures
            result@ == self@.evo_times,
    {
        &self.evo_times
    }

    /// The iteration times, in the order they were added.
    pub fn iter_times(&self) -> (result: &Vec<TimeSpan>)
        ensures
            result@ == self@.iter_times,
    {
        &self.iter_times
    }

    /// The score shader times, in the order they were added.
    pub fn score_shader_times(&self) -> (result: &Vec<TimeSpan>)
        ensures
            result@ == self@.score_shader_times,
    {
        &self.score_shader_times
    }

    /// The draw shader times, in the order they were added.
    pub fn draw_shader_times(&self) -> (result: &Vec<TimeSpan>)
        ensures
            result@ == self@.draw_shader_times,
    {
        &self.draw_shader_times
    }

    /// Sorts every list of times and summarises them; the shader averages are
    /// also scaled down by the number of candidates per generation.
    pub fn summary(&mut self, candidates_per_generation: usize) -> (result: RuntimeSummary)
        requires
            summarisable(old(self)@.evo_times),
            summarisable(old(self)@.iter_times),
            summarisable(old(self)@.score_shader_times),
            summarisable(old(self)@.draw_shader_times),
            (candidates_per_generation as u32) != 0,
        ensures
            spans_sorted(final(self)@.evo_times),
            spans_sorted(final(self)@.iter_times),
            spans_sorted(final(self)@.score_shader_times),
            spans_sorted(final(self)@.draw_shader_times),
            final(self)@.evo_times.to_multiset() == old(self)@.evo_times.to_multiset(),
            final(self)@.iter_times.to_multiset() == old(self)@.iter_times.to_multiset(),
            final(self)@.score_shader_times.to_multiset()
                == old(self)@.score_shader_times.to_multiset(),
            final(self)@.draw_shader_times.to_multiset()
                == old(self)@.draw_shader_times.to_multiset(),
            summarises(result.evolution, old(self)@.evo_times),
            summarises(result.iteration, old(self)@.iter_times),
            summarises(result.score_shader, old(self)@.score_shader_times),
            summarises(result.draw_shader, old(self)@.draw_shader_times),
            result.score_shader_scaled@ == result.score_shader.average@ / (
            (candidates_per_generation as u32) as nat),
            result.draw_shader_scaled@ == result.draw_shader.average@ / (
            (candidates_per_generation as u32) as nat),
    {
        let evolution = summarise(&mut self.evo_times);
        let iteration = summarise(&mut self.iter_times);
        let score_shader = summarise(&mut self.score_shader_times);
        let draw_shader = summarise(&mut self.draw_shader_times);
        let scale = candidates_per_generation as u32;
        let score_shader_scaled = score_shader.average.div(scale);
        let draw_shader_scaled = draw_shader.average.div(scale);
        RuntimeSummary {
            evolution,
            iteration,
            score_shader,
            score_shader_scaled,
            draw_shader,
            draw_shader_scaled,
        }
    }
}

} // verus!
