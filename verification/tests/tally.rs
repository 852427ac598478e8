use videolen::format::Config;
use videolen::probe::{DurationInfo, Entry, ProbeError};
use videolen::span::Span;
use videolen::table::{Output, Row};
use videolen::tally::{Failure, Tally};

const UNITS: Config = Config { seconds: false, quiet: false };
const SECONDS: Config = Config { seconds: true, quiet: false };
const MICROS: u64 = 1_000_000;

fn measured(path: &str, ticks: u64) -> Entry {
    Entry { path: path.to_string(), outcome: Ok(DurationInfo::Ticks(ticks)) }
}

fn unknown(path: &str) -> Entry {
    Entry { path: path.to_string(), outcome: Ok(DurationInfo::Unknown) }
}

fn unreadable(path: &str, message: &str) -> Entry {
    Entry { path: path.to_string(), outcome: Err(ProbeError { message: message.to_string() }) }
}

fn row(label: &str, duration: &str) -> Row {
    Row { label: label.to_string(), duration: duration.to_string() }
}

#[test]
fn new_tally_is_empty() {
    let tally = Tally::new();
    assert_eq!(tally.total(), Span::zero());
    assert!(tally.rows().is_empty());
}

#[test]
fn add_keeps_the_text_it_is_given() {
    let mut tally = Tally::new();
    assert!(tally.add("a.mp4".to_string(), Span::from_secs(90), "ninety".to_string()));
    assert_eq!(tally.total(), Span::from_secs(90));
    assert_eq!(tally.rows(), &vec![row("a.mp4", "ninety")]);
}

#[test]
fn add_refuses_a_total_that_cannot_be_held() {
    let mut tally = Tally::new();
    assert!(tally.add("a.mp4".to_string(), Span::from_secs(u64::MAX), "long".to_string()));
    assert!(!tally.add("b.mp4".to_string(), Span::from_secs(1), "short".to_string()));
    assert_eq!(tally.total(), Span::from_secs(u64::MAX));
    assert_eq!(tally.rows(), &vec![row("a.mp4", "long")]);
}

#[test]
fn record_adds_a_known_duration() {
    let mut tally = Tally::new();
    assert_eq!(tally.record(&measured("a.mp4", 90_000_000), MICROS, &UNITS), Ok(()));
    assert_eq!(tally.total(), Span::from_secs(90));
    assert_eq!(tally.rows(), &vec![row("a.mp4", "1m 30s")]);
}

#[test]
fn record_writes_seconds_where_asked() {
    let mut tally = Tally::new();
    assert_eq!(tally.record(&measured("a.mp4", 90_500_000), MICROS, &SECONDS), Ok(()));
    assert_eq!(tally.total(), Span::from_ticks(90_500_000, MICROS));
    assert_eq!(tally.rows(), &vec![row("a.mp4", "90")]);
}

#[test]
fn record_skips_an_unknown_duration() {
    let mut tally = Tally::new();
    assert_eq!(tally.record(&measured("a.mp4", 90_000_000), MICROS, &UNITS), Ok(()));
    assert_eq!(tally.record(&unknown("b.mp4"), MICROS, &UNITS), Ok(()));
    assert_eq!(tally.total(), Span::from_secs(90));
    assert_eq!(tally.rows(), &vec![row("a.mp4", "1m 30s")]);
}

#[test]
fn record_keeps_a_zero_duration() {
    let mut tally = Tally::new();
    assert_eq!(tally.record(&measured("empty.mp4", 0), MICROS, &UNITS), Ok(()));
    assert_eq!(tally.total(), Span::zero());
    assert_eq!(tally.rows(), &vec![row("empty.mp4", "0s")]);
}

#[test]
fn record_reports_an_unreadable_file() {
    let mut tally = Tally::new();
    assert_eq!(tally.record(&measured("a.mp4", 90_000_000), MICROS, &UNITS), Ok(()));
    assert_eq!(
        tally.record(&unreadable("gone.mp4", "No such file or directory"), MICROS, &UNITS),
        Err(Failure::Probe {
            path: "gone.mp4".to_string(),
            message: "No such file or directory".to_string(),
        })
    );
    assert_eq!(tally.total(), Span::from_secs(90));
    assert_eq!(tally.rows(), &vec![row("a.mp4", "1m 30s")]);
}

#[test]
fn record_reports_a_total_that_cannot_be_held() {
    let mut tally = Tally::new();
    assert_eq!(tally.record(&measured("a", u64::MAX), 1, &SECONDS), Ok(()));
    assert_eq!(tally.record(&measured("b", 1), 1, &SECONDS), Err(Failure::Overflow));
    assert_eq!(tally.total(), Span::from_secs(u64::MAX));
    assert_eq!(tally.rows(), &vec![row("a", "18446744073709551615")]);
}

#[test]
fn total_never_shrinks() {
    let mut tally = Tally::new();
    let mut before = tally.total();
    let entries = vec![
        measured("a", 5),
        unknown("b"),
        measured("c", 0),
        unreadable("d", "broken"),
        measured("e", 7_000_000),
    ];
    for entry in entries.iter() {
        let _ = tally.record(entry, MICROS, &UNITS);
        let after = tally.total();
        assert!(
            (after.as_secs(), after.subsec_nanos()) >= (before.as_secs(), before.subsec_nanos())
        );
        before = after;
    }
    assert_eq!(tally.total(), Span::from_ticks(7_000_005, MICROS));
}

#[test]
fn rows_follow_the_order_of_the_files() {
    let mut tally = Tally::new();
    for entry in [measured("z", 3), measured("a", 1), unknown("m"), measured("k", 2)].iter() {
        assert_eq!(tally.record(entry, 1, &SECONDS), Ok(()));
    }
    assert_eq!(tally.rows(), &vec![row("z", "3"), row("a", "1"), row("k", "2")]);
    assert_eq!(tally.total(), Span::from_secs(6));
}

#[test]
fn finish_shows_the_total_alone_where_quiet() {
    let mut tally = Tally::new();
    assert_eq!(tally.record(&measured("a.mp4", 125_000_000), MICROS, &UNITS), Ok(()));
    let quiet = Config { seconds: false, quiet: true };
    assert_eq!(tally.finish(&quiet), Output::Summary("2m 5s".to_string()));
    let quiet_seconds = Config { seconds: true, quiet: true };
    assert_eq!(tally.finish(&quiet_seconds), Output::Summary("125".to_string()));
}

#[test]
fn failure_names_the_path_and_the_cause() {
    let failure = Failure::Probe {
        path: "gone.mp4".to_string(),
        message: "No such file or directory".to_string(),
    };
    assert_eq!(failure.message(), "gone.mp4: No such file or directory");
}

#[test]
fn overflow_has_its_own_message() {
    assert_eq!(Failure::Overflow.message(), "overflow when adding durations");
}
