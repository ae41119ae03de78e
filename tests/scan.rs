use yas_scan::record::ArtifactRecord;
use yas_scan::scan::{scan_feed, Phase, ScanConfig, ScanSession, SlotAction, SlotOutcome, WaitDecision};

fn config() -> ScanConfig {
    ScanConfig {
        max_row: 1000,
        min_star: 4,
        min_level: 0,
        max_wait_switch_ms: 800,
        cloud_wait_switch_ms: 1500,
        scroll_stop_ms: 80,
        number: 0,
        dump: false,
        capture_only: false,
    }
}

fn record(slot: u32, name: &str, star: u32, level: u32) -> ArtifactRecord {
    ArtifactRecord {
        slot,
        name: name.to_string(),
        main_stat_name: "ATK".to_string(),
        main_stat_value: "311".to_string(),
        sub_stat_1: "CRIT Rate+3.9%".to_string(),
        sub_stat_2: String::new(),
        sub_stat_3: String::new(),
        sub_stat_4: String::new(),
        equip: String::new(),
        level,
        star,
        locked: false,
    }
}

fn names(rs: &[ArtifactRecord]) -> Vec<String> {
    rs.iter().map(|r| r.name.clone()).collect()
}

#[test]
fn stops_at_repeat_of_first_record() {
    let feed = vec![
        record(0, "a", 5, 20),
        record(1, "b", 5, 20),
        record(2, "c", 5, 20),
        record(3, "a", 5, 20),
        record(4, "d", 5, 20),
    ];
    let (kept, read) = scan_feed(config(), 7, 5, 100, &feed);
    assert_eq!(names(&kept), vec!["a", "b", "c"]);
    assert_eq!(read, 4);
}

#[test]
fn filtered_record_is_counted_but_omitted() {
    let feed = vec![
        record(0, "a", 5, 20),
        record(1, "b", 3, 20),
        record(2, "c", 4, 0),
        record(3, "d", 2, 8),
    ];
    let (kept, read) = scan_feed(config(), 7, 5, 100, &feed);
    assert_eq!(names(&kept), vec!["a", "c"]);
    assert_eq!(read, 4);

    let mut s = ScanSession::new(config(), false, 7, 5, 100);
    s.select_slot();
    s.observe_frame(1, 0);
    assert!(s.fields_captured());
    assert_eq!(s.accept_record(record(0, "x", 3, 0)), SlotOutcome::Filtered);
    assert_eq!(s.scanned, 1);
    assert_eq!(s.results.len(), 0);
}

#[test]
fn min_level_filter() {
    let mut c = config();
    c.min_star = 0;
    c.min_level = 16;
    let feed = vec![record(0, "a", 5, 20), record(1, "b", 5, 12), record(2, "c", 5, 16)];
    let (kept, read) = scan_feed(c, 7, 5, 100, &feed);
    assert_eq!(names(&kept), vec!["a", "c"]);
    assert_eq!(read, 3);
}

#[test]
fn total_bounds_the_scan() {
    let feed = vec![record(0, "a", 5, 0), record(1, "b", 5, 0), record(2, "c", 5, 0)];
    let (kept, read) = scan_feed(config(), 7, 5, 2, &feed);
    assert_eq!(names(&kept), vec!["a", "b"]);
    assert_eq!(read, 2);
}

#[test]
fn operator_number_overrides_detected_count() {
    let mut c = config();
    c.number = 1;
    let feed = vec![record(0, "a", 5, 0), record(1, "b", 5, 0)];
    let (kept, _) = scan_feed(c, 7, 5, 100, &feed);
    assert_eq!(names(&kept), vec!["a"]);
    let s = ScanSession::new(c, false, 7, 5, 100);
    assert_eq!(s.total, 1);
}

#[test]
fn max_row_caps_the_total() {
    let mut c = config();
    c.max_row = 2;
    let s = ScanSession::new(c, false, 7, 5, 1000);
    assert_eq!(s.total, 14);
}

#[test]
fn capture_only_reads_nothing() {
    let mut c = config();
    c.capture_only = true;
    let feed = vec![record(0, "a", 5, 0)];
    let (kept, read) = scan_feed(c, 7, 5, 100, &feed);
    assert!(kept.is_empty());
    assert_eq!(read, 0);
}

#[test]
fn wait_times_out_without_failing() {
    let mut s = ScanSession::new(config(), false, 7, 5, 100);
    s.select_slot();
    assert_eq!(s.observe_frame(42, 0), WaitDecision::Proceed { timed_out: false });
    assert!(s.fields_captured());
    s.accept_record(record(0, "a", 5, 0));
    assert_eq!(s.phase, Phase::SelectSlot);
    s.select_slot();
    let mut polls = 0;
    let mut waited: u64 = 0;
    loop {
        match s.observe_frame(42, waited) {
            WaitDecision::Poll => {
                polls += 1;
                waited += 100;
            }
            WaitDecision::Proceed { timed_out } => {
                assert!(timed_out);
                break;
            }
        }
    }
    assert_eq!(polls, 8);
    assert_eq!(s.phase, Phase::CaptureFields);
    assert!(s.fields_captured());
    assert_eq!(s.phase, Phase::RecognizeFields);
}

#[test]
fn cloud_session_waits_longer() {
    let mut s = ScanSession::new(config(), true, 7, 5, 100);
    s.last_fingerprint = Some(9);
    s.select_slot();
    assert_eq!(s.observe_frame(9, 1000), WaitDecision::Poll);
    assert_eq!(s.observe_frame(9, 1500), WaitDecision::Proceed { timed_out: true });
}

#[test]
fn slots_advance_and_scroll_by_page() {
    let mut s = ScanSession::new(config(), false, 2, 2, 100);
    let mut actions = Vec::new();
    for i in 0..5u32 {
        actions.push(s.select_slot());
        s.observe_frame(i as u64, 0);
        s.fields_captured();
        s.accept_record(record(i, &format!("r{}", i), 5, 0));
    }
    assert_eq!(actions[0], SlotAction::Select { column: 0, row: 0, scroll: false });
    assert_eq!(actions[1], SlotAction::Select { column: 1, row: 0, scroll: false });
    assert_eq!(actions[2], SlotAction::Select { column: 0, row: 1, scroll: false });
    assert_eq!(actions[3], SlotAction::Select { column: 1, row: 1, scroll: false });
    assert_eq!(actions[4], SlotAction::Select { column: 0, row: 0, scroll: true });
}

#[test]
fn finish_when_total_reached() {
    let mut s = ScanSession::new(config(), false, 7, 5, 1);
    s.select_slot();
    s.observe_frame(1, 0);
    s.fields_captured();
    assert_eq!(s.accept_record(record(0, "a", 5, 0)), SlotOutcome::Kept);
    assert_eq!(s.phase, Phase::Done);
    let r = s.into_results();
    assert_eq!(names(&r), vec!["a"]);
}

#[test]
fn repeat_ends_session() {
    let mut s = ScanSession::new(config(), false, 7, 5, 10);
    s.select_slot();
    s.observe_frame(1, 0);
    s.fields_captured();
    s.accept_record(record(0, "a", 5, 0));
    s.select_slot();
    s.observe_frame(2, 0);
    s.fields_captured();
    assert_eq!(s.accept_record(record(1, "a", 5, 0)), SlotOutcome::Repeated);
    assert_eq!(s.phase, Phase::Done);
    assert_eq!(s.scanned, 1);
}

#[test]
fn page_without_slots_scans_nothing() {
    let feed = vec![record(0, "a", 5, 0)];
    let (kept, read) = scan_feed(config(), 0, 5, 100, &feed);
    assert!(kept.is_empty());
    assert_eq!(read, 0);
    let mut s = ScanSession::new(config(), false, 7, 0, 100);
    assert_eq!(s.total, 0);
    assert_eq!(s.select_slot(), SlotAction::Finish);
}
