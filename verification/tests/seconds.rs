use std::time::Duration;

use gemini_live_transcribe::seconds::{round_ratio, Seconds, INFINITE_BITS};

fn seconds(value: f32) -> Seconds {
    Seconds { bits: value.to_bits() }
}

fn text(seconds: Seconds) -> String {
    match seconds.in_tenths() {
        Some((whole, tenth)) => format!("{whole}.{tenth}"),
        None => "inf".to_string(),
    }
}

fn random_words() -> Vec<u64> {
    let mut state: u64 = 0x9E37_79B9_7F4A_7C15;
    let mut words = Vec::new();
    for _ in 0..4000 {
        state = state.wrapping_mul(6364136223846793005).wrapping_add(1442695040888963407);
        words.push(state ^ (state >> 29));
    }
    words
}

/// Time spans of all sizes, in nanoseconds.
fn spans() -> Vec<u64> {
    let mut spans = vec![
        0,
        1,
        2,
        999_999_999,
        1_000_000_000,
        1_000_000_001,
        16_777_216_999_999_999,
        16_777_217_000_000_000,
        350_000_000,
        250_000_000,
        u64::MAX,
    ];
    spans.extend(random_words().iter().enumerate().map(|(i, word)| word >> (i % 64)));
    spans
}

/// Singles of all sizes, one that is more than every number among them.
fn singles() -> Vec<f32> {
    let mut singles = vec![
        0.0,
        f32::from_bits(1),
        f32::MIN_POSITIVE,
        f32::EPSILON,
        1.0,
        16_777_216.0,
        16_777_215.0,
        f32::MAX,
        f32::MAX,
        f32::INFINITY,
        f32::INFINITY,
        0.25,
    ];
    for word in random_words() {
        let first = word as u32 % INFINITE_BITS;
        let near = first.saturating_add((word >> 32) as u32 % 0x1800_0000);
        singles.push(f32::from_bits(first));
        singles.push(f32::from_bits(near.min(INFINITE_BITS)));
        singles.push(f32::from_bits(first ^ ((word >> 60) as u32)));
    }
    singles
}

#[test]
fn time_spans_are_single_precision_seconds() {
    for nanos in spans() {
        let expected = Duration::from_nanos(nanos).as_secs_f32();
        assert_eq!(Seconds::of_nanos(nanos as u128), seconds(expected), "{nanos}");
    }
    for word in random_words() {
        let nanos = (word >> 40) as u32 % 1_000_000_000;
        let span = Duration::new(word, nanos);
        assert_eq!(Seconds::of_nanos(span.as_nanos()), seconds(span.as_secs_f32()), "{span:?}");
    }
}

#[test]
fn sums_and_differences_round_as_single_precision_does() {
    for pair in singles().windows(2) {
        for (a, b) in [(pair[0], pair[1]), (pair[1], pair[0])] {
            assert_eq!(seconds(a).plus(seconds(b)), seconds(a + b), "{a} + {b}");
            assert_eq!(seconds(a).minus(seconds(b)), seconds((a - b).max(0.0)), "{a} - {b}");
            assert_eq!(seconds(a).near(seconds(b)), (a - b).abs() < f32::EPSILON, "{a} ~ {b}");
        }
    }
}

#[test]
fn nearness_depends_on_what_single_precision_tells_apart() {
    let span = |nanos: u128| Seconds::of_nanos(nanos);
    assert!(span(100_000_000_000).near(span(100_000_000_500)));
    assert!(!span(100_000_000_000).near(span(100_000_010_000)));
    assert!(span(1_000).near(span(1_119)));
    assert!(!span(1_000).near(span(1_120)));
}

#[test]
fn tenths_are_those_of_the_formatted_number() {
    for value in singles() {
        assert_eq!(text(seconds(value)), format!("{value:.1}"));
    }
    for nanos in spans() {
        let value = Duration::from_nanos(nanos).as_secs_f32();
        assert_eq!(text(Seconds::of_nanos(nanos as u128)), format!("{value:.1}"), "{nanos}");
    }
    assert_eq!(text(Seconds::of_nanos(350_000_000)), "0.3");
    assert_eq!(text(Seconds::of_nanos(250_000_000)), "0.2");
    assert_eq!(text(Seconds::of_nanos(750_000_000)), "0.8");
}

#[test]
fn long_waits_go_on_adding_up() {
    let nanos: u128 = 1 << 93;
    let mut waiting = Seconds::of_nanos(nanos);
    let mut expected = Duration::new((nanos / 1_000_000_000) as u64, 0).as_secs_f32();
    for _ in 0..40 {
        waiting = waiting.plus(waiting);
        expected += expected;
    }
    assert!(waiting.in_tenths().expect("a number").0 > 1 << 73);
    assert_eq!(text(waiting), format!("{expected:.1}"));
}

#[test]
fn ratios_round_to_the_even_neighbor() {
    assert_eq!(round_ratio(5, 2), 2);
    assert_eq!(round_ratio(7, 2), 4);
    assert_eq!(round_ratio(8, 3), 3);
    assert_eq!(round_ratio(u128::MAX, 1), u128::MAX);
}
