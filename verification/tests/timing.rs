use photomosaic::timing::{sorted_spans, sum_spans, TimeSpan, MAX_NANOS};

fn span(n: u128) -> TimeSpan {
    TimeSpan::from_nanos(n)
}

#[test]
fn span_keeps_its_nanoseconds() {
    assert_eq!(span(1_500).as_nanos(), 1_500);
    assert_eq!(TimeSpan::zero().as_nanos(), 0);
    assert_eq!(TimeSpan::max_value().as_nanos(), MAX_NANOS);
    assert_eq!(MAX_NANOS, u64::MAX as u128 * 1_000_000_000 + 999_999_999);
}

#[test]
fn spans_add_and_divide() {
    assert_eq!(span(7).add(span(5)).as_nanos(), 12);
    assert_eq!(span(10).div(3).as_nanos(), 3);
    assert_eq!(span(2_000_000_002).div(3).as_nanos(), 666_666_667);
    assert_eq!(span(9).div(1).as_nanos(), 9);
}

#[test]
fn span_comparisons() {
    assert!(span(1).is_shorter_than(&span(2)));
    assert!(!span(2).is_shorter_than(&span(2)));
    assert!(TimeSpan::zero().is_zero());
    assert!(!span(1).is_zero());
}

#[test]
fn sum_of_spans() {
    let v = vec![span(3), span(4), span(10)];
    assert_eq!(sum_spans(&v).as_nanos(), 17);
    assert_eq!(sum_spans(&Vec::new()).as_nanos(), 0);
}

#[test]
fn sorting_spans() {
    let v = vec![span(5), span(1), span(5), span(3)];
    let s = sorted_spans(&v);
    let n: Vec<u128> = s.iter().map(|t| t.as_nanos()).collect();
    assert_eq!(n, vec![1, 3, 5, 5]);
    assert_eq!(sum_spans(&s).as_nanos(), sum_spans(&v).as_nanos());
}
