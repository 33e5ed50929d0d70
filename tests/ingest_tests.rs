use sensor_recorder::ingest::{Ingest, IngestAction, ReadEvent, FLUSH_EVERY, WARMUP_LINES};

fn line(text: &str, at_ms: u64) -> ReadEvent {
    ReadEvent::Line { text: text.to_string(), at_ms }
}

fn warmed_up() -> Ingest {
    let mut ing = Ingest::new();
    for i in 0..WARMUP_LINES {
        let a = ing.on_event(line("1;2;3\n", i as u64));
        assert!(matches!(a, IngestAction::Skip));
    }
    ing
}

fn written(a: IngestAction) -> (String, bool) {
    match a {
        IngestAction::Write { record, flush } => (record, flush),
        _ => panic!("expected a write"),
    }
}

#[test]
fn warmup_lines_are_discarded_whatever_they_hold() {
    let mut ing = Ingest::new();
    for i in 0..WARMUP_LINES {
        let text = if i % 2 == 0 { "512;300;17\n" } else { "   \n" };
        assert!(matches!(ing.on_event(line(text, 10)), IngestAction::Skip));
    }
    assert_eq!(ing.warmup_left, 0);
    let (rec, flush) = written(ing.on_event(line("512;300;17\n", 99)));
    assert_eq!(rec, "99;512;300;17\n");
    assert!(!flush);
}

#[test]
fn read_errors_do_not_count_as_warmup() {
    let mut ing = Ingest::new();
    for _ in 0..10 {
        assert!(matches!(ing.on_event(ReadEvent::Failed), IngestAction::Skip));
    }
    assert_eq!(ing.warmup_left, WARMUP_LINES);
}

#[test]
fn blank_lines_after_warmup_write_nothing() {
    let mut ing = warmed_up();
    for blank in ["\n", "   \n", "\t\r\n", "", "\u{a0}\u{3000}\n"] {
        assert!(matches!(ing.on_event(line(blank, 5)), IngestAction::Skip));
        assert_eq!(ing.since_flush, 0);
    }
    let (rec, _) = written(ing.on_event(line(" x \n", 6)));
    assert_eq!(rec, "6; x \n");
    assert_eq!(ing.since_flush, 1);
}

#[test]
fn timestamps_never_decrease() {
    let mut ing = warmed_up();
    let (a, _) = written(ing.on_event(line("a\n", 1000)));
    let (b, _) = written(ing.on_event(line("b\n", 900)));
    let (c, _) = written(ing.on_event(line("c\n", 1000)));
    let (d, _) = written(ing.on_event(line("d\n", 1200)));
    assert_eq!(a, "1000;a\n");
    assert_eq!(b, "1000;b\n");
    assert_eq!(c, "1000;c\n");
    assert_eq!(d, "1200;d\n");
    assert_eq!(ing.last_ms, 1200);
}

#[test]
fn flush_every_five_thousand_records() {
    let mut ing = warmed_up();
    let mut flushes = Vec::new();
    for i in 0..(2 * FLUSH_EVERY) {
        if i % 3 == 0 {
            assert!(matches!(ing.on_event(line("\n", i as u64)), IngestAction::Skip));
        }
        let (_, flush) = written(ing.on_event(line("v\n", i as u64)));
        if flush {
            flushes.push(i);
        }
    }
    assert_eq!(flushes, vec![FLUSH_EVERY - 1, 2 * FLUSH_EVERY - 1]);
    assert_eq!(ing.since_flush, 0);
}

#[test]
fn closed_stream_finishes() {
    let mut ing = warmed_up();
    assert!(matches!(ing.on_event(ReadEvent::Closed), IngestAction::Finish));
    let mut fresh = Ingest::new();
    assert!(matches!(fresh.on_event(ReadEvent::Closed), IngestAction::Finish));
}
