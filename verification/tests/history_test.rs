use sequences_rs::history::{format_ago, format_ago_at, format_history_line, parse_history, parse_history_line, HistoryEntry};

fn entry(ts: u64, difficulty: &str) -> HistoryEntry {
    HistoryEntry {
        timestamp: ts,
        score: 12,
        correct: 12,
        total: 15,
        difficulty: difficulty.to_string(),
        time_limit_secs: 60,
        duration_secs: 61,
    }
}

fn same(a: &HistoryEntry, b: &HistoryEntry) -> bool {
    a.timestamp == b.timestamp && a.score == b.score && a.correct == b.correct && a.total == b.total
        && a.difficulty == b.difficulty && a.time_limit_secs == b.time_limit_secs && a.duration_secs == b.duration_secs
}

#[test]
fn line_format() {
    assert_eq!(format_history_line(&entry(1700000000, "Medium")), "1700000000,12,12,15,Medium,60,61");
}

#[test]
fn line_round_trip() {
    for d in ["Easy", "Medium", "Hard", "", "x y"] {
        let e = entry(42, d);
        let line = format_history_line(&e);
        let back = parse_history_line(&line).unwrap();
        assert!(same(&e, &back));
    }
}

#[test]
fn line_parsing_like_splitn() {
    let e = parse_history_line("1,2,3,4,Hard,60,5").unwrap();
    assert_eq!((e.timestamp, e.score, e.correct, e.total), (1, 2, 3, 4));
    assert_eq!(e.difficulty, "Hard");
    assert_eq!((e.time_limit_secs, e.duration_secs), (60, 5));
    // too few fields
    assert!(parse_history_line("1,2,3,4,Hard,60").is_none());
    assert!(parse_history_line("").is_none());
    // the seventh field keeps further commas, so it no longer reads as a number
    assert!(parse_history_line("1,2,3,4,Hard,60,5,9").is_none());
    // a number that does not read
    assert!(parse_history_line("1,2,x,4,Hard,60,5").is_none());
    assert!(parse_history_line("1,2,3,4294967296,Hard,60,5").is_none());
    // a plus sign reads, as in str::parse
    assert_eq!(parse_history_line("+1,2,3,4,Hard,60,5").unwrap().timestamp, 1);
    // a comma in the difficulty shifts the fields
    assert!(parse_history_line(&format_history_line(&entry(5, "a,b"))).is_none());
}

#[test]
fn history_newest_first_skipping_bad_lines() {
    let lines = vec![
        format_history_line(&entry(1, "Easy")),
        "garbage".to_string(),
        format_history_line(&entry(2, "Hard")),
        format_history_line(&entry(3, "Medium")),
    ];
    let parsed = parse_history(&lines);
    assert_eq!(parsed.len(), 3);
    assert_eq!(parsed[0].timestamp, 3);
    assert_eq!(parsed[1].timestamp, 2);
    assert_eq!(parsed[2].timestamp, 1);
    assert_eq!(parsed[1].difficulty, "Hard");
}

#[test]
fn appended_entry_reads_first() {
    let mut lines = vec![format_history_line(&entry(10, "Easy"))];
    let before = parse_history(&lines);
    let e = entry(99, "Hard");
    lines.push(format_history_line(&e));
    let after = parse_history(&lines);
    assert_eq!(after.len(), before.len() + 1);
    assert!(same(&after[0], &e));
    assert!(same(&after[1], &before[0]));
}

#[test]
fn ago_texts() {
    assert_eq!(format_ago_at(1000, 1000), "0s ago");
    assert_eq!(format_ago_at(1059, 1000), "59s ago");
    assert_eq!(format_ago_at(1060, 1000), "1m ago");
    assert_eq!(format_ago_at(1000 + 3599, 1000), "59m ago");
    assert_eq!(format_ago_at(1000 + 3600, 1000), "1h ago");
    assert_eq!(format_ago_at(1000 + 86399, 1000), "23h ago");
    assert_eq!(format_ago_at(1000 + 86400, 1000), "1d ago");
    assert_eq!(format_ago_at(1000 + 86400 * 40, 1000), "40d ago");
    // a timestamp in the future counts as now
    assert_eq!(format_ago_at(1000, 5000), "0s ago");
}

#[test]
fn ago_against_clock() {
    let now = sequences_rs::history::now_secs();
    assert!(now > 1_600_000_000);
    let text = format_ago(now - 7200);
    assert!(text == "2h ago" || text == "1h ago");
}
