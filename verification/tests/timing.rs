use std::time::{Duration, Instant};
use vent_engine::timing::{Stopwatch, TimeSpan};

fn wait_ms(ms: u64) {
    let start = Instant::now();
    while start.elapsed() < Duration::from_millis(ms) {}
}

#[test]
fn new_stopwatch_reads_zero() {
    let sw = Stopwatch::new();
    assert_eq!(sw.elapsed(), TimeSpan { secs: 0, nanos: 0 });
    assert_eq!(sw.elapsed_ms(), 0);
    assert_eq!(Stopwatch::default().elapsed_ms(), 0);
}

#[test]
fn started_stopwatch_measures_time() {
    let sw = Stopwatch::new_and_start();
    wait_ms(20);
    let ms = sw.elapsed_ms();
    assert!(ms >= 20, "measured {ms} ms");
    let span = sw.elapsed();
    assert!(span.nanos < 1_000_000_000);
    assert!(span.secs * 1000 + (span.nanos / 1_000_000) as u64 >= 20);
}

#[test]
fn stopped_stopwatch_reads_zero() {
    let mut sw = Stopwatch::new_and_start();
    wait_ms(5);
    sw.stop();
    assert_eq!(sw.elapsed(), TimeSpan { secs: 0, nanos: 0 });
    assert_eq!(sw.elapsed_ms(), 0);
    sw.start();
    wait_ms(5);
    assert!(sw.elapsed_ms() >= 5);
}

#[test]
fn span_sum_carries_nanoseconds() {
    let a = TimeSpan { secs: 1, nanos: 600_000_000 };
    let b = TimeSpan { secs: 2, nanos: 700_000_000 };
    assert_eq!(a.plus(b), TimeSpan { secs: 4, nanos: 300_000_000 });
    assert_eq!(TimeSpan::zero().plus(a), a);
}

#[test]
fn span_whole_millis() {
    assert_eq!(TimeSpan { secs: 3, nanos: 999_999 }.whole_millis(), 3000);
    assert_eq!(TimeSpan { secs: 3, nanos: 1_500_000 }.whole_millis(), 3001);
    assert_eq!(TimeSpan { secs: u64::MAX, nanos: 0 }.whole_millis(), u64::MAX);
    assert_eq!(
        TimeSpan { secs: u64::MAX / 1000, nanos: 999_000_000 }.whole_millis(),
        u64::MAX
    );
    assert_eq!(
        TimeSpan { secs: u64::MAX / 1000, nanos: 0 }.whole_millis(),
        (u64::MAX / 1000) * 1000
    );
}

#[test]
fn stopwatch_elapsed_with_reading() {
    let sw = Stopwatch::new_and_start();
    let reading = TimeSpan { secs: 7, nanos: 5 };
    assert_eq!(sw.elapsed_with(reading), reading);
    let stopped = Stopwatch::new();
    assert_eq!(stopped.elapsed_with(reading), TimeSpan { secs: 0, nanos: 0 });
}
