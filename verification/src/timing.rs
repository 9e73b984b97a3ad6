use vstd::prelude::*;
use std::time::Instant;

verus! {

broadcast use vstd::seq_lib::group_to_multiset_ensures;

/// The longest time a `std::time::Duration` can hold, in nanoseconds.
pub const MAX_NANOS: u128 = 18446744073709551615999999999;

/// A point in time of the machine's monotonic clock.
#[verifier::external_type_specification]
#[verifier::external_body]
pub struct ExInstant(Instant);

/// A length of time in whole nanoseconds, with the range of `std::time::Duration`.
#[derive(Clone, Copy, PartialEq, Eq, Structural, Debug)]
pub struct TimeSpan {
    nanos: u128,
}

impl View for TimeSpan {
    type V = nat;

    closed spec fn view(&self) -> nat {
        self.nanos as nat
    }
}

/// The sum, in nanoseconds, of all the spans of `s`.
pub open spec fn span_total(s: Seq<TimeSpan>) -> int {
    s.fold_left(0int, |acc: int, t: TimeSpan| acc + t@)
}

/// The spans of `s` are in non-decreasing order.
pub open spec fn spans_sorted(s: Seq<TimeSpan>) -> bool {
    forall|i: int, j: int| 0 <= i <= j < s.len() ==> #[trigger] s[i]@ <= #[trigger] s[j]@
}

impl TimeSpan {
    #[verifier::type_invariant]
    spec fn bounded(self) -> bool {
        self.nanos <= MAX_NANOS
    }

    pub fn zero() -> (result: Self)
        ensures
            result@ == 0,
    {
        TimeSpan { nanos: 0 }
    }

    /// The longest span there is: `Duration::MAX`.
    pub fn max_value() -> (result: Self)
        ensures
            result@ == MAX_NANOS,
    {
        TimeSpan { nanos: MAX_NANOS }
    }

    pub fn from_nanos(nanos: u128) -> (result: Self)
        requires
            nanos <= MAX_NANOS,
        ensures
            result@ == nanos,
    {
        TimeSpan { nanos }
    }

    pub fn as_nanos(&self) -> (result: u128)
        ensures
            result == self@,
            result <= MAX_NANOS,
    {
        proof {
            use_type_invariant(self);
        }
        self.nanos
    }

    /// The sum of two spans; like `Duration`'s `+`, it is only defined while the
    /// sum stays in range.
    pub fn add(self, other: Self) -> (result: Self)
        requires
            self@ + other@ <= MAX_NANOS,
        ensures
            result@ == self@ + other@,
    {
        TimeSpan { nanos: self.nanos + other.nanos }
    }

    /// The span divided by `divisor`, rounded down to a whole nanosecond, as
    /// `Duration / u32` computes it.
    pub fn div(self, divisor: u32) -> (result: Self)
        requires
            divisor > 0,
        ensures
            result@ == self@ / (divisor as nat),
    {
        proof {
            use_type_invariant(&self);
        }
        TimeSpan { nanos: self.nanos / (divisor as u128) }
    }

    pub fn is_shorter_than(&self, other: &Self) -> (result: bool)
        ensures
            result == (self@ < other@),
    {
        self.nanos < other.nanos
    }

    pub fn is_zero(&self) -> (result: bool)
        ensures
            result == (self@ == 0),
    {
        self.nanos == 0
    }
}

/// Reads the monotonic clock.
#[verifier::external_body]
pub(crate) fn clock_now() -> Instant {
    Instant::now()
}

/// The time that has passed on the monotonic clock since `start`
/// (`Instant::elapsed`); nothing is promised of its length.
#[verifier::external_body]
pub(crate) fn elapsed_since(start: &Instant) -> TimeSpan {
    TimeSpan { nanos: start.elapsed().as_nanos() }
}

proof fn lemma_total_push(s: Seq<TimeSpan>, t: TimeSpan)
    ensures
        span_total(s.push(t)) == span_total(s) + t@,
{
    assert(s.push(t).drop_last() =~= s);
}

proof fn lemma_total_nonneg_prefix(s: Seq<TimeSpan>, i: int)
    requires
        0 <= i <= s.len(),
    ensures
        0 <= span_total(s.take(i)) <= span_total(s),
    decreases s.len() - i,
{
    if i == s.len() {
        assert(s.take(i) =~= s);
        lemma_total_nonneg(s);
    } else {
        lemma_total_nonneg_prefix(s, i + 1);
        assert(s.take(i + 1) =~= s.take(i).push(s[i]));
        lemma_total_push(s.take(i), s[i]);
        lemma_total_nonneg(s.take(i));
    }
}

proof fn lemma_total_nonneg(s: Seq<TimeSpan>)
    ensures
        0 <= span_total(s),
    decreases s.len(),
{
    if s.len() > 0 {
        lemma_total_nonneg(s.drop_last());
    }
}

/// Reordering spans does not change their sum.
pub proof fn lemma_total_of_permutation(a: Seq<TimeSpan>, b: Seq<TimeSpan>)
    requires
        a.to_multiset() == b.to_multiset(),
    ensures
        span_total(a) == span_total(b),
{
    let f = |acc: int, t: TimeSpan| acc + t@;
    assert(vstd::seq_lib::commutative_foldl(f));
    vstd::seq_lib::lemma_fold_left_permutation(a, b, f, 0int);
}

/// The sum of all the spans, added up in order as `Duration`'s `+=` does.
pub fn sum_spans(spans: &Vec<TimeSpan>) -> (result: TimeSpan)
    requires
        span_total(spans@) <= MAX_NANOS,
    ensures
        result@ == span_total(spans@),
{
    let mut total = TimeSpan::zero();
    let mut i: usize = 0;
    while i < spans.len()
        invariant
            i <= spans.len(),
            span_total(spans@) <= MAX_NANOS,
            total@ == span_total(spans@.take(i as int)),
        decreases spans.len() - i,
    {
        proof {
            assert(spans@.take(i + 1) =~= spans@.take(i as int).push(spans@[i as int]));
            lemma_total_push(spans@.take(i as int), spans@[i as int]);
            lemma_total_nonneg_prefix(spans@, i + 1);
        }
        total = total.add(spans[i]);
        i = i + 1;
    }
    assert(spans@.take(spans@.len() as int) =~= spans@);
    total
}

/// The sum of all the spans, or `None` when it leaves the range of a span.
pub fn checked_sum(spans: &Vec<TimeSpan>) -> (result: Option<TimeSpan>)
    ensures
        result is Some <==> span_total(spans@) <= MAX_NANOS,
        result matches Some(t) ==> t@ == span_total(spans@),
{
    let mut total: u128 = 0;
    let mut i: usize = 0;
    while i < spans.len()
        invariant
            i <= spans.len(),
            total <= MAX_NANOS,
            total == span_total(spans@.take(i as int)),
        decreases spans.len() - i,
    {
        let x = spans[i].as_nanos();
        proof {
            assert(spans@.take(i + 1) =~= spans@.take(i as int).push(spans@[i as int]));
            lemma_total_push(spans@.take(i as int), spans@[i as int]);
            lemma_total_nonneg_prefix(spans@, i + 1);
        }
        if x > MAX_NANOS - total {
            return None;
        }
        total = total + x;
        i = i + 1;
    }
    assert(spans@.take(spans@.len() as int) =~= spans@);
    Some(TimeSpan::from_nanos(total))
}

/// The spans in non-decreasing order: what `sort` leaves in a vector of them.
pub fn sorted_spans(spans: &Vec<TimeSpan>) -> (result: Vec<TimeSpan>)
    ensures
        spans_sorted(result@),
        result@.to_multiset() == spans@.to_multiset(),
{
    let mut out: Vec<TimeSpan> = Vec::new();
    let mut i: usize = 0;
    while i < spans.len()
        invariant
            i <= spans.len(),
            spans_sorted(out@),
            out@.to_multiset() == spans@.take(i as int).to_multiset(),
        decreases spans.len() - i,
    {
        let x = spans[i];
        let mut j: usize = 0;
        while j < out.len() && !x.is_shorter_than(&out[j])
            invariant
                j <= out.len(),
                forall|k: int| 0 <= k < j ==> #[trigger] out@[k]@ <= x@,
            decreases out.len() - j,
        {
            j = j + 1;
        }
        let ghost before = out@;
        out.insert(j, x);
        proof {
            assert(out@ == before.insert(j as int, x));
            assert(spans@.take(i + 1) =~= spans@.take(i as int).push(x));
            assert forall|a: int, b: int| 0 <= a <= b < out@.len() implies #[trigger] out@[a]@
                <= #[trigger] out@[b]@ by {
                if b < j {
                } else if a > j {
                    assert(out@[a] == before[a - 1]);
                    assert(out@[b] == before[b - 1]);
                } else if a == j && b == j {
                } else if a == j {
                    assert(out@[b] == before[b - 1]);
                    assert(x@ < before[j as int]@);
                } else if b == j {
                    assert(out@[a] == before[a]);
                } else {
                    assert(out@[a] == before[a]);
                    assert(out@[b] == before[b - 1]);
                }
            }
        }
        i = i + 1;
    }
    assert(spans@.take(spans@.len() as int) =~= spans@);
    out
}

} // verus!
