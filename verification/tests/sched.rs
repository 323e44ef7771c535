use std::rc::Rc;
use edge_runtime::sched::{Elapsed, MarkedFutures, MovingAvg, Sample, SchedMetric};

fn ms(n: u32) -> Elapsed {
    Elapsed { secs: 0, nanos: n * 1_000_000 }
}

#[test]
fn moving_avg_divides_by_window() {
    let mut avg = MovingAvg::new(4);
    avg.update(ms(10));
    avg.update(ms(20));
    // two samples, window of four: (10 + 20) / 4 ms
    assert_eq!(avg.avg(), Elapsed { secs: 0, nanos: 7_500_000 });
}

#[test]
fn moving_avg_drops_oldest_when_full() {
    let mut avg = MovingAvg::new(2);
    avg.update(ms(100));
    avg.update(ms(2));
    avg.update(ms(4));
    assert_eq!(avg.avg(), ms(3));
}

#[test]
fn moving_avg_carries_seconds() {
    let mut avg = MovingAvg::new(2);
    avg.update(Elapsed { secs: 1, nanos: 600_000_000 });
    avg.update(Elapsed { secs: 0, nanos: 600_000_000 });
    assert_eq!(avg.avg(), Elapsed { secs: 1, nanos: 100_000_000 });
}

#[test]
fn moving_avg_odd_seconds_split() {
    let mut avg = MovingAvg::new(2);
    avg.update(Elapsed { secs: 3, nanos: 0 });
    assert_eq!(avg.avg(), Elapsed { secs: 1, nanos: 500_000_000 });
}

#[test]
fn moving_avg_empty_is_zero() {
    let avg = MovingAvg::new(3);
    assert_eq!(avg.avg(), Elapsed { secs: 0, nanos: 0 });
}

#[test]
fn zero_window_keeps_every_sample() {
    let mut avg = MovingAvg::new(0);
    avg.update(ms(1));
    avg.update(ms(2));
    avg.update(ms(3));
    assert_eq!(avg.samples(), vec![ms(1), ms(2), ms(3)]);
}

#[test]
fn keeps_the_last_window_samples() {
    let mut avg = MovingAvg::new(3);
    for n in 1..=5 {
        avg.update(ms(n));
    }
    assert_eq!(avg.samples(), vec![ms(3), ms(4), ms(5)]);
    let mut short = MovingAvg::new(3);
    short.update(ms(9));
    assert_eq!(short.samples(), vec![ms(9)]);
    assert_eq!(short.avg(), ms(3));
}

#[test]
fn in_scope_returns_and_records() {
    let mut avg = MovingAvg::new(1);
    let r = avg.in_scope(|| 41 + 1);
    assert_eq!(r, 42);
    let a = avg.avg();
    assert!(a.nanos < 1_000_000_000);
    assert!(a.secs < 10);
}

#[test]
fn update_guard_records_elapsed() {
    let mut avg = MovingAvg::new(1);
    avg.update(Elapsed { secs: 1000, nanos: 0 });
    let guard = avg.update_guard();
    let sample = guard.finish(&mut avg);
    assert!(sample.secs < 10);
    // the window of one now holds only the new sample
    assert_eq!(avg.avg(), sample);
}

#[test]
fn sample_start_end_measures() {
    let start = <Elapsed as Sample>::start();
    let e = <Elapsed as Sample>::end(start);
    assert!(e.nanos < 1_000_000_000);
}

#[test]
fn sched_metric_only_when_enabled() {
    let mut kept = None;
    assert!(SchedMetric::get(None, Some(4), &mut kept).is_none());
    assert!(SchedMetric::get(Some(false), Some(4), &mut kept).is_none());
    assert!(kept.is_none());
    let m = SchedMetric::get(Some(true), Some(2), &mut kept).unwrap();
    assert!(Rc::ptr_eq(&m, kept.as_ref().unwrap()));
    assert!(m.blocking_call.samples().is_empty());
    let mut fresh = MovingAvg::new(2);
    fresh.update(ms(2));
    fresh.update(ms(4));
    assert_eq!(fresh.avg(), ms(3));
}

#[test]
fn sched_metric_reuses_the_kept_one() {
    let mut kept = None;
    let first = SchedMetric::get(Some(true), Some(2), &mut kept).unwrap();
    let again = SchedMetric::get(Some(true), Some(9), &mut kept).unwrap();
    assert!(Rc::ptr_eq(&first, &again));
    // disabled settings leave the kept metrics alone
    assert!(SchedMetric::get(Some(false), Some(2), &mut kept).is_none());
    assert!(Rc::ptr_eq(&first, kept.as_ref().unwrap()));
}

#[test]
fn avg_rounds_down_to_the_nanosecond() {
    let mut avg = MovingAvg::new(3);
    avg.update(Elapsed { secs: 1, nanos: 2 });
    // (1_000_000_002 ns) / 3 = 333_333_334 ns
    assert_eq!(avg.avg(), Elapsed { secs: 0, nanos: 333_333_334 });
    let mut tiny = MovingAvg::new(2);
    tiny.update(Elapsed { secs: 0, nanos: 1 });
    assert_eq!(tiny.avg(), Elapsed { secs: 0, nanos: 0 });
}

#[test]
fn marked_futures_keys_are_fresh_and_removable() {
    let mut marked: MarkedFutures<&str> = MarkedFutures::new();
    let a = marked.mark("a");
    let b = marked.mark("b");
    assert_eq!((a, b), (0, 1));
    assert_eq!(marked.futures().len(), 2);
    assert_eq!(marked.unmark(a), Some("a"));
    assert_eq!(marked.unmark(a), None);
    assert_eq!(marked.futures().len(), 1);
    assert_eq!(marked.futures().get(&b), Some(&"b"));
}
