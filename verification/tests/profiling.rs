use photomosaic::profiling::{Dropwatch, Metric, RuntimeData, RuntimeStats, Stopwatch};
use photomosaic::timing::TimeSpan;

fn span(n: u128) -> TimeSpan {
    TimeSpan::from_nanos(n)
}

fn nanos(v: &[TimeSpan]) -> Vec<u128> {
    v.iter().map(|t| t.as_nanos()).collect()
}

#[test]
fn metric_names() {
    assert_eq!(Metric::ScoreShader.name(), "Score shader");
    assert_eq!(Metric::DrawShader.name(), "Draw shader");
    assert_eq!(Metric::Initialization.name(), "Initialization");
    assert_eq!(Metric::CandidatePopulation.name(), "Candidate populating");
    assert_eq!(Metric::ScoreIndexSorting.name(), "Score index sorting");
    assert_eq!(Metric::CandidateReproduction.name(), "Candidate reproduction");
    assert_eq!(Metric::VideoGeneration.name(), "Video generation");
}

#[test]
fn all_metrics_in_order() {
    let all = Metric::all();
    assert_eq!(all.len(), 7);
    for (i, m) in all.iter().enumerate() {
        assert_eq!(m.index(), i);
    }
    assert_eq!(all[0], Metric::ScoreShader);
    assert_eq!(all[6], Metric::VideoGeneration);
}

#[test]
fn stats_start_empty() {
    let stats = RuntimeStats::init();
    for m in Metric::all() {
        assert!(stats.total(m).is_zero());
        assert!(stats.sorted_records(m).is_empty());
    }
}

#[test]
fn record_adds_to_one_metric_only() {
    let mut stats = RuntimeStats::init();
    stats.record(Metric::DrawShader, span(30));
    stats.record(Metric::DrawShader, span(10));
    stats.record(Metric::DrawShader, span(20));
    stats.record(Metric::ScoreShader, span(5));
    assert_eq!(stats.total(Metric::DrawShader).as_nanos(), 60);
    assert_eq!(stats.total(Metric::ScoreShader).as_nanos(), 5);
    assert!(stats.total(Metric::Initialization).is_zero());
    assert_eq!(nanos(&stats.sorted_records(Metric::DrawShader)), vec![10, 20, 30]);
    assert_eq!(nanos(&stats.sorted_records(Metric::ScoreShader)), vec![5]);
}

#[test]
fn total_is_sum_of_records() {
    let mut stats = RuntimeStats::init();
    for n in [7u128, 11, 13, 2] {
        stats.record(Metric::VideoGeneration, span(n));
    }
    let sum: u128 = nanos(&stats.sorted_records(Metric::VideoGeneration)).iter().sum();
    assert_eq!(stats.total(Metric::VideoGeneration).as_nanos(), sum);
    assert_eq!(sum, 33);
}

#[test]
fn metrics_ordered_by_total_descending() {
    let mut stats = RuntimeStats::init();
    stats.record(Metric::Initialization, span(100));
    stats.record(Metric::ScoreShader, span(300));
    stats.record(Metric::DrawShader, span(200));
    let order = stats.metrics_by_total();
    assert_eq!(order.len(), 7);
    assert_eq!(order[0], Metric::ScoreShader);
    assert_eq!(order[1], Metric::DrawShader);
    assert_eq!(order[2], Metric::Initialization);
    for m in &order[3..] {
        assert!(stats.total(*m).is_zero());
    }
}

#[test]
fn report_leaves_out_metrics_without_time() {
    let mut stats = RuntimeStats::init();
    assert!(stats.reported_metrics().is_empty());
    stats.record(Metric::VideoGeneration, span(5));
    stats.record(Metric::CandidatePopulation, span(40));
    stats.record(Metric::VideoGeneration, span(50));
    stats.record(Metric::ScoreIndexSorting, span(0));
    let shown = stats.reported_metrics();
    assert_eq!(shown, vec![Metric::VideoGeneration, Metric::CandidatePopulation]);
}

#[test]
fn runtime_data_summary() {
    let mut data = RuntimeData::new();
    for n in [30u128, 10, 20] {
        data.add_evo_time(span(n));
    }
    data.add_iter_time(span(7));
    for n in [1000u128, 3000] {
        data.add_score_shader_time(span(n));
    }
    for n in [9u128, 1, 5] {
        data.add_draw_shader_time(span(n));
    }
    let s = data.summary(10);
    assert_eq!(s.evolution.average.as_nanos(), 20);
    assert_eq!(s.evolution.min.as_nanos(), 10);
    assert_eq!(s.evolution.max.as_nanos(), 30);
    assert_eq!(s.iteration.average.as_nanos(), 7);
    assert_eq!(s.iteration.min.as_nanos(), 7);
    assert_eq!(s.score_shader.average.as_nanos(), 2000);
    assert_eq!(s.score_shader_scaled.as_nanos(), 200);
    assert_eq!(s.draw_shader.average.as_nanos(), 5);
    assert_eq!(s.draw_shader.min.as_nanos(), 1);
    assert_eq!(s.draw_shader.max.as_nanos(), 9);
    assert_eq!(s.draw_shader_scaled.as_nanos(), 0);
}

#[test]
fn runtime_data_average_rounds_down() {
    let mut data = RuntimeData::new();
    data.add_evo_time(span(1));
    data.add_evo_time(span(2));
    data.add_iter_time(span(1));
    data.add_score_shader_time(span(1));
    data.add_draw_shader_time(span(1));
    let s = data.summary(1);
    assert_eq!(s.evolution.average.as_nanos(), 1);
}

#[test]
fn stopwatch_text() {
    let mut sw = Stopwatch::new();
    assert_eq!(sw.text(), None);
    sw.start(Some("Loading"));
    assert_eq!(sw.text(), Some("Loading"));
    sw.start(None);
    assert_eq!(sw.text(), None);
    let _ = sw.elapsed();
}

#[test]
fn dropwatch_text() {
    let d = Dropwatch::new("Config parsing");
    assert_eq!(d.text(), "Config parsing");
    let _ = d.elapsed();
}
