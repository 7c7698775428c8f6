//! The score history: one line of comma-separated fields per session,
//! read back most recent first.

use vstd::prelude::*;
use crate::clock::{since_unix_epoch, system_now, whole_seconds};
use crate::decimal::{
    decimal_string, decimal_text, lemma_decimal_text, lemma_unsigned_round_trip, parse_u32, parse_u64,
    unsigned_text_value,
};

verus! {

/// One recorded session.
#[derive(Debug, Clone)]
pub struct HistoryEntry {
    pub timestamp: u64,
    pub score: u32,
    pub correct: u32,
    pub total: u32,
    pub difficulty: String,
    pub time_limit_secs: u64,
    pub duration_secs: u64,
}

/// What a `HistoryEntry` holds, with the difficulty as its characters.
pub struct HistoryRecord {
    pub timestamp: u64,
    pub score: u32,
    pub correct: u32,
    pub total: u32,
    pub difficulty: Seq<char>,
    pub time_limit_secs: u64,
    pub duration_secs: u64,
}

impl View for HistoryEntry {
    type V = HistoryRecord;

    open spec fn view(&self) -> HistoryRecord {
        HistoryRecord {
            timestamp: self.timestamp,
            score: self.score,
            correct: self.correct,
            total: self.total,
            difficulty: self.difficulty@,
            time_limit_secs: self.time_limit_secs,
            duration_secs: self.duration_secs,
        }
    }
}

// ----- splitting a line -----

/// The position of the first comma of `s`, or its length when it has none.
pub open spec fn first_comma(s: Seq<char>) -> int
    decreases s.len(),
{
    if s.len() == 0 {
        0
    } else if s[0] == ',' {
        0
    } else {
        1 + first_comma(s.drop_first())
    }
}

/// `s` split at its commas into at most `k` fields (`k >= 1`), the last
/// field keeping any further commas, as `str::splitn(k, ',')` does.
pub open spec fn split_fields(s: Seq<char>, k: nat) -> Seq<Seq<char>>
    decreases k,
{
    if k <= 1 || first_comma(s) >= s.len() {
        seq![s]
    } else {
        seq![s.take(first_comma(s))] + split_fields(s.skip(first_comma(s) + 1), (k - 1) as nat)
    }
}

/// The fields joined with a comma between each two.
pub open spec fn join_fields(fields: Seq<Seq<char>>) -> Seq<char>
    decreases fields.len(),
{
    if fields.len() == 0 {
        Seq::empty()
    } else if fields.len() == 1 {
        fields[0]
    } else {
        fields[0] + seq![','] + join_fields(fields.drop_first())
    }
}

pub open spec fn has_no_comma(s: Seq<char>) -> bool {
    forall|i: int| 0 <= i < s.len() ==> #[trigger] s[i] != ','
}

/// The fields of `s` from position `p` on, cut at the positions in `cuts`.
pub open spec fn fields_between(s: Seq<char>, cuts: Seq<int>, p: int) -> Seq<Seq<char>>
    decreases cuts.len(),
{
    if cuts.len() == 0 {
        seq![s.subrange(p, s.len() as int)]
    } else {
        seq![s.subrange(p, cuts[0])] + fields_between(s, cuts.drop_first(), cuts[0] + 1)
    }
}

proof fn lemma_first_comma_at(s: Seq<char>, j: int)
    requires
        0 <= j <= s.len(),
        forall|i: int| 0 <= i < j ==> #[trigger] s[i] != ',',
        j < s.len() ==> s[j] == ',',
    ensures
        first_comma(s) == j,
    decreases j,
{
    if j > 0 {
        let t = s.drop_first();
        assert forall|i: int| 0 <= i < j - 1 implies #[trigger] t[i] != ',' by {
            assert(t[i] == s[i + 1]);
        }
        lemma_first_comma_at(t, j - 1);
    }
}

proof fn lemma_fields_between_len(s: Seq<char>, cuts: Seq<int>, p: int)
    ensures
        fields_between(s, cuts, p).len() == cuts.len() + 1,
    decreases cuts.len(),
{
    if cuts.len() > 0 {
        lemma_fields_between_len(s, cuts.drop_first(), cuts[0] + 1);
    }
}

/// Cutting at the commas found is splitting: `cuts` holds, in order, the
/// commas of `s` from `p` on, all of them, or the first `k - 1`.
proof fn lemma_split_at_cuts(s: Seq<char>, cuts: Seq<int>, p: int, k: nat)
    requires
        0 <= p <= s.len(),
        k >= 1,
        cuts.len() <= k - 1,
        forall|i: int| 0 <= i < cuts.len() ==> p <= #[trigger] cuts[i] < s.len() && s[cuts[i]] == ',',
        forall|i: int, j: int| 0 <= i < j < cuts.len() ==> cuts[i] < cuts[j],
        forall|i: int|
            p <= i < s.len() && #[trigger] s[i] == ',' && (cuts.len() < k - 1 || (cuts.len() > 0 && i <= cuts.last()))
                ==> cuts.contains(i),
    ensures
        split_fields(s.skip(p), k) == fields_between(s, cuts, p),
    decreases cuts.len(),
{
    let t = s.skip(p);
    if cuts.len() == 0 {
        if k > 1 {
            assert forall|i: int| 0 <= i < t.len() implies #[trigger] t[i] != ',' by {
                if t[i] == ',' {
                    assert(s[p + i] == ',');
                    assert(cuts.contains(p + i));
                }
            }
            lemma_first_comma_at(t, t.len() as int);
        }
        assert(t =~= s.subrange(p, s.len() as int));
    } else {
        let c = cuts[0];
        assert forall|i: int| 0 <= i < c - p implies #[trigger] t[i] != ',' by {
            if t[i] == ',' {
                assert(s[p + i] == ',');
                assert(p + i <= cuts.last());
                assert(cuts.contains(p + i));
                let m = choose|m: int| 0 <= m < cuts.len() && cuts[m] == p + i;
                if m > 0 {
                    assert(cuts[0] < cuts[m]);
                }
            }
        }
        assert(t[c - p] == s[c]);
        lemma_first_comma_at(t, c - p);
        let rest = cuts.drop_first();
        assert forall|i: int| 0 <= i < rest.len() implies c + 1 <= #[trigger] rest[i] < s.len() && s[rest[i]] == ',' by {
            assert(rest[i] == cuts[i + 1]);
            assert(cuts[0] < cuts[i + 1]);
        }
        assert forall|i: int|
            c + 1 <= i < s.len() && #[trigger] s[i] == ',' && (rest.len() < (k - 1) as nat - 1 || (rest.len() > 0
                && i <= rest.last())) implies rest.contains(i) by {
            if rest.len() > 0 {
                assert(rest.last() == cuts.last());
            }
            assert(cuts.contains(i));
            let m = choose|m: int| 0 <= m < cuts.len() && cuts[m] == i;
            assert(m != 0);
            assert(rest[m - 1] == i);
        }
        lemma_split_at_cuts(s, rest, c + 1, (k - 1) as nat);
        assert(t.skip(c - p + 1) =~= s.skip(c + 1));
        assert(t.take(c - p) =~= s.subrange(p, c));
    }
}

/// Splitting fields joined by commas, at most as many fields as there are,
/// gives them back when no field but the last holds a comma.
proof fn lemma_split_joined(fields: Seq<Seq<char>>)
    requires
        fields.len() >= 1,
        forall|i: int| 0 <= i < fields.len() - 1 ==> has_no_comma(#[trigger] fields[i]),
    ensures
        split_fields(join_fields(fields), fields.len()) == fields,
    decreases fields.len(),
{
    if fields.len() == 1 {
        assert(seq![fields[0]] =~= fields);
    } else {
        let a = fields[0];
        let rest = fields.drop_first();
        let s = join_fields(fields);
        assert(s == a + seq![','] + join_fields(rest));
        assert(has_no_comma(a));
        assert forall|i: int| 0 <= i < a.len() implies #[trigger] s[i] != ',' by {
            assert(s[i] == a[i]);
        }
        lemma_first_comma_at(s, a.len() as int);
        assert forall|i: int| 0 <= i < rest.len() - 1 implies has_no_comma(#[trigger] rest[i]) by {
            assert(rest[i] == fields[i + 1]);
        }
        lemma_split_joined(rest);
        assert(s.take(a.len() as int) =~= a);
        assert(s.skip(a.len() + 1 as int) =~= join_fields(rest));
        assert(seq![a] + rest =~= fields);
    }
}

// ----- one line -----

/// The seven fields of the line that records `r`.
pub open spec fn record_fields(r: HistoryRecord) -> Seq<Seq<char>> {
    seq![
        decimal_text(r.timestamp as nat),
        decimal_text(r.score as nat),
        decimal_text(r.correct as nat),
        decimal_text(r.total as nat),
        r.difficulty,
        decimal_text(r.time_limit_secs as nat),
        decimal_text(r.duration_secs as nat),
    ]
}

/// The line that records `r` (without its line break).
pub open spec fn history_line(r: HistoryRecord) -> Seq<char> {
    join_fields(record_fields(r))
}

/// What reading a line gives: split at its first six commas, the seven
/// fields read as timestamp, score, correct, total, difficulty, time limit
/// and duration; nothing if there are fewer fields or a number does not read.
pub open spec fn line_record(line: Seq<char>) -> Option<HistoryRecord> {
    let f = split_fields(line, 7);
    if f.len() != 7 {
        None
    } else {
        let timestamp = unsigned_text_value(f[0], u64::MAX as nat);
        let score = unsigned_text_value(f[1], u32::MAX as nat);
        let correct = unsigned_text_value(f[2], u32::MAX as nat);
        let total = unsigned_text_value(f[3], u32::MAX as nat);
        let time_limit = unsigned_text_value(f[5], u64::MAX as nat);
        let duration = unsigned_text_value(f[6], u64::MAX as nat);
        if timestamp is Some && score is Some && correct is Some && total is Some && time_limit is Some
            && duration is Some {
            Some(
                HistoryRecord {
                    timestamp: timestamp->0 as u64,
                    score: score->0 as u32,
                    correct: correct->0 as u32,
                    total: total->0 as u32,
                    difficulty: f[4],
                    time_limit_secs: time_limit->0 as u64,
                    duration_secs: duration->0 as u64,
                },
            )
        } else {
            None
        }
    }
}

/// A line written for an entry reads back as that entry, provided its
/// difficulty holds no comma.
pub proof fn lemma_line_round_trip(r: HistoryRecord)
    requires
        has_no_comma(r.difficulty),
    ensures
        line_record(history_line(r)) == Some(r),
{
    let f = record_fields(r);
    lemma_decimal_text(r.timestamp as nat);
    lemma_decimal_text(r.score as nat);
    lemma_decimal_text(r.correct as nat);
    lemma_decimal_text(r.total as nat);
    lemma_decimal_text(r.time_limit_secs as nat);
    lemma_decimal_text(r.duration_secs as nat);
    assert forall|i: int| 0 <= i < f.len() - 1 implies has_no_comma(#[trigger] f[i]) by {
        if i == 4 {
            assert(f[i] == r.difficulty);
        }
    }
    lemma_split_joined(f);
    lemma_unsigned_round_trip(r.timestamp as nat, u64::MAX as nat);
    lemma_unsigned_round_trip(r.score as nat, u32::MAX as nat);
    lemma_unsigned_round_trip(r.correct as nat, u32::MAX as nat);
    lemma_unsigned_round_trip(r.total as nat, u32::MAX as nat);
    lemma_unsigned_round_trip(r.time_limit_secs as nat, u64::MAX as nat);
    lemma_unsigned_round_trip(r.duration_secs as nat, u64::MAX as nat);
}

/// Appends a comma and then `field`.
fn push_field(line: &mut String, field: &str)
    ensures
        final(line)@ == old(line)@ + seq![','] + field@,
{
    line.append(",");
    line.append(field);
    proof {
        reveal_strlit(",");
    }
}

/// Seven fields joined by commas, written out.
proof fn lemma_join_seven(f: Seq<Seq<char>>)
    requires
        f.len() == 7,
    ensures
        join_fields(f) == f[0] + seq![','] + f[1] + seq![','] + f[2] + seq![','] + f[3] + seq![','] + f[4]
            + seq![','] + f[5] + seq![','] + f[6],
{
    let c = seq![','];
    let f1 = f.drop_first();
    let f2 = f1.drop_first();
    let f3 = f2.drop_first();
    let f4 = f3.drop_first();
    let f5 = f4.drop_first();
    let f6 = f5.drop_first();
    assert(join_fields(f6) == f[6]);
    assert(join_fields(f5) == f[5] + c + f[6]);
    assert(join_fields(f4) == f[4] + c + (f[5] + c + f[6]));
    assert(join_fields(f3) == f[3] + c + (f[4] + c + (f[5] + c + f[6])));
    assert(join_fields(f2) == f[2] + c + (f[3] + c + (f[4] + c + (f[5] + c + f[6]))));
    assert(join_fields(f1) == f[1] + c + (f[2] + c + (f[3] + c + (f[4] + c + (f[5] + c + f[6])))));
    assert(join_fields(f) == f[0] + c + (f[1] + c + (f[2] + c + (f[3] + c + (f[4] + c + (f[5] + c + f[6]))))));
    assert(join_fields(f) =~= f[0] + c + f[1] + c + f[2] + c + f[3] + c + f[4] + c + f[5] + c + f[6]);
}

/// The line that records `entry`, as it is appended to the history file
/// (the caller adds the line break).
pub fn format_history_line(entry: &HistoryEntry) -> (r: String)
    ensures
        r@ == history_line(entry@),
{
    let mut line = decimal_string(entry.timestamp);
    let score = decimal_string(entry.score as u64);
    push_field(&mut line, score.as_str());
    let correct = decimal_string(entry.correct as u64);
    push_field(&mut line, correct.as_str());
    let total = decimal_string(entry.total as u64);
    push_field(&mut line, total.as_str());
    push_field(&mut line, entry.difficulty.as_str());
    let limit = decimal_string(entry.time_limit_secs);
    push_field(&mut line, limit.as_str());
    let duration = decimal_string(entry.duration_secs);
    push_field(&mut line, duration.as_str());
    proof {
        lemma_join_seven(record_fields(entry@));
    }
    line
}

/// The positions of the first six commas of `line`, or of all of them when
/// it has fewer.
fn comma_positions(line: &str) -> (cuts: Vec<usize>)
    ensures
        cuts@.len() <= 6,
        forall|m: int| 0 <= m < cuts@.len() ==> #[trigger] cuts@[m] < line@.len() && line@[cuts@[m] as int] == ',',
        forall|m: int, n: int| 0 <= m < n < cuts@.len() ==> cuts@[m] < cuts@[n],
        forall|j: int|
            0 <= j < line@.len() && #[trigger] line@[j] == ',' && (cuts@.len() < 6 || j <= cuts@.last()) ==> exists|m: int|
                0 <= m < cuts@.len() && cuts@[m] == j,
{
    let len = line.unicode_len();
    let mut cuts: Vec<usize> = Vec::new();
    let mut i: usize = 0;
    while i < len && cuts.len() < 6
        invariant
            i <= len,
            len == line@.len(),
            cuts@.len() <= 6,
            cuts@.len() > 0 ==> cuts@.last() < i,
            forall|m: int| 0 <= m < cuts@.len() ==> #[trigger] cuts@[m] < i && line@[cuts@[m] as int] == ',',
            forall|m: int, n: int| 0 <= m < n < cuts@.len() ==> cuts@[m] < cuts@[n],
            forall|j: int| 0 <= j < i && #[trigger] line@[j] == ',' ==> exists|m: int| 0 <= m < cuts@.len() && cuts@[m] == j,
        decreases len - i,
    {
        if line.get_char(i) == ',' {
            let ghost before = cuts@;
            cuts.push(i);
            proof {
                assert forall|j: int| 0 <= j < i + 1 && #[trigger] line@[j] == ',' implies
                    exists|m: int| 0 <= m < cuts@.len() && cuts@[m] == j by {
                    if j < i {
                        let m = choose|m: int| 0 <= m < before.len() && before[m] == j;
                        assert(cuts@[m] == j);
                    } else {
                        assert(cuts@[before.len() as int] == j);
                    }
                }
            }
        }
        i = i + 1;
    }
    cuts
}

/// Six cuts at the first six commas split a line into the seven fields between them.
proof fn lemma_seven_fields(s: Seq<char>, cuts: Seq<usize>)
    requires
        cuts.len() <= 6,
        forall|m: int| 0 <= m < cuts.len() ==> #[trigger] cuts[m] < s.len() && s[cuts[m] as int] == ',',
        forall|m: int, n: int| 0 <= m < n < cuts.len() ==> cuts[m] < cuts[n],
        forall|j: int|
            0 <= j < s.len() && #[trigger] s[j] == ',' && (cuts.len() < 6 || j <= cuts.last()) ==> exists|m: int|
                0 <= m < cuts.len() && cuts[m] == j,
    ensures
        split_fields(s, 7).len() == cuts.len() + 1,
        cuts.len() == 6 ==> split_fields(s, 7) == seq![
            s.subrange(0, cuts[0] as int),
            s.subrange(cuts[0] + 1, cuts[1] as int),
            s.subrange(cuts[1] + 1, cuts[2] as int),
            s.subrange(cuts[2] + 1, cuts[3] as int),
            s.subrange(cuts[3] + 1, cuts[4] as int),
            s.subrange(cuts[4] + 1, cuts[5] as int),
            s.subrange(cuts[5] + 1, s.len() as int),
        ],
{
    let cut_seq = cuts.map_values(|c: usize| c as int);
    assert(s.skip(0) =~= s);
    assert forall|m: int| 0 <= m < cut_seq.len() implies 0 <= #[trigger] cut_seq[m] < s.len() && s[cut_seq[m]] == ',' by {
        assert(cut_seq[m] == cuts[m] as int);
    }
    assert forall|m: int, n: int| 0 <= m < n < cut_seq.len() implies cut_seq[m] < cut_seq[n] by {
        assert(cut_seq[m] == cuts[m] as int);
        assert(cut_seq[n] == cuts[n] as int);
    }
    assert forall|j: int|
        0 <= j < s.len() && #[trigger] s[j] == ',' && (cut_seq.len() < 6 || (cut_seq.len() > 0 && j
            <= cut_seq.last())) implies cut_seq.contains(j) by {
        if cut_seq.len() == 6 {
            assert(cut_seq.last() == cuts[5] as int);
        }
        let m = choose|m: int| 0 <= m < cuts.len() && cuts[m] == j;
        assert(cut_seq[m] == j);
    }
    lemma_split_at_cuts(s, cut_seq, 0, 7);
    lemma_fields_between_len(s, cut_seq, 0);
    if cuts.len() == 6 {
        let d1 = cut_seq.drop_first();
        let d2 = d1.drop_first();
        let d3 = d2.drop_first();
        let d4 = d3.drop_first();
        let d5 = d4.drop_first();
        let d6 = d5.drop_first();
        assert(fields_between(s, d6, cuts[5] + 1) == seq![s.subrange(cuts[5] + 1, s.len() as int)]);
        assert(fields_between(s, d5, cuts[4] + 1) =~= seq![s.subrange(cuts[4] + 1, cuts[5] as int)]
            + fields_between(s, d6, cuts[5] + 1));
        assert(fields_between(s, d4, cuts[3] + 1) =~= seq![s.subrange(cuts[3] + 1, cuts[4] as int)]
            + fields_between(s, d5, cuts[4] + 1));
        assert(fields_between(s, d3, cuts[2] + 1) =~= seq![s.subrange(cuts[2] + 1, cuts[3] as int)]
            + fields_between(s, d4, cuts[3] + 1));
        assert(fields_between(s, d2, cuts[1] + 1) =~= seq![s.subrange(cuts[1] + 1, cuts[2] as int)]
            + fields_between(s, d3, cuts[2] + 1));
        assert(fields_between(s, d1, cuts[0] + 1) =~= seq![s.subrange(cuts[0] + 1, cuts[1] as int)]
            + fields_between(s, d2, cuts[1] + 1));
        assert(fields_between(s, cut_seq, 0) =~= seq![s.subrange(0, cuts[0] as int)]
            + fields_between(s, d1, cuts[0] + 1));
    }
}

/// Reads one line of the history file (without its line break).
pub fn parse_history_line(line: &str) -> (r: Option<HistoryEntry>)
    ensures
        match r {
            Some(e) => line_record(line@) == Some(e@),
            None => line_record(line@) is None,
        },
{
    let len = line.unicode_len();
    let cuts = comma_positions(line);
    proof {
        lemma_seven_fields(line@, cuts@);
    }
    if cuts.len() < 6 {
        return None;
    }
    let c0 = cuts[0];
    let c1 = cuts[1];
    let c2 = cuts[2];
    let c3 = cuts[3];
    let c4 = cuts[4];
    let c5 = cuts[5];
    let timestamp = parse_u64(line.substring_char(0, c0));
    let score = parse_u32(line.substring_char(c0 + 1, c1));
    let correct = parse_u32(line.substring_char(c1 + 1, c2));
    let total = parse_u32(line.substring_char(c2 + 1, c3));
    let difficulty = line.substring_char(c3 + 1, c4);
    let time_limit = parse_u64(line.substring_char(c4 + 1, c5));
    let duration = parse_u64(line.substring_char(c5 + 1, len));
    match (timestamp, score, correct, total, time_limit, duration) {
        (Some(timestamp), Some(score), Some(correct), Some(total), Some(time_limit_secs), Some(duration_secs)) => {
            Some(
                HistoryEntry {
                    timestamp,
                    score,
                    correct,
                    total,
                    difficulty: String::from_str(difficulty),
                    time_limit_secs,
                    duration_secs,
                },
            )
        },
        _ => None,
    }
}

// ----- the whole file -----

/// The entries that the lines record, most recent (the last line) first;
/// lines that do not read are skipped.
pub open spec fn newest_first(lines: Seq<Seq<char>>) -> Seq<HistoryRecord>
    decreases lines.len(),
{
    if lines.len() == 0 {
        Seq::empty()
    } else {
        match line_record(lines.last()) {
            Some(r) => seq![r] + newest_first(lines.drop_last()),
            None => newest_first(lines.drop_last()),
        }
    }
}

/// The characters of each line.
pub open spec fn line_texts(lines: Seq<String>) -> Seq<Seq<char>> {
    lines.map_values(|l: String| l@)
}

/// What each entry holds.
pub open spec fn entry_records(entries: Seq<HistoryEntry>) -> Seq<HistoryRecord> {
    entries.map_values(|e: HistoryEntry| e@)
}

/// Reads the lines of the history file into entries, most recent first.
pub fn parse_history(lines: &Vec<String>) -> (r: Vec<HistoryEntry>)
    ensures
        entry_records(r@) == newest_first(line_texts(lines@)),
{
    let ghost texts = line_texts(lines@);
    let mut out: Vec<HistoryEntry> = Vec::new();
    let mut i: usize = lines.len();
    assert(texts.take(i as int) =~= texts);
    while i > 0
        invariant
            i <= lines@.len(),
            texts == line_texts(lines@),
            newest_first(texts) =~= entry_records(out@) + newest_first(texts.take(i as int)),
        decreases i,
    {
        let ghost before = out@;
        let parsed = parse_history_line(lines[i - 1].as_str());
        proof {
            let t = texts.take(i as int);
            assert(t.last() == lines@[i - 1]@);
            assert(t.drop_last() =~= texts.take(i - 1));
        }
        match parsed {
            Some(e) => {
                out.push(e);
                proof {
                    assert(entry_records(out@) =~= entry_records(before).push(e@));
                }
            },
            None => {},
        }
        i = i - 1;
    }
    assert(texts.take(0) =~= Seq::<Seq<char>>::empty());
    out
}

/// After a line for `r` is appended to the history, reading the history
/// gives `r` first, followed by what it gave before; provided the
/// difficulty holds no comma.
pub proof fn lemma_appended_entry_read_first(lines: Seq<Seq<char>>, r: HistoryRecord)
    requires
        has_no_comma(r.difficulty),
    ensures
        newest_first(lines.push(history_line(r))) == seq![r] + newest_first(lines),
{
    lemma_line_round_trip(r);
    assert(lines.push(history_line(r)).drop_last() =~= lines);
}

// ----- time -----

/// The current time in whole seconds since the Unix epoch, or 0 when the
/// clock reads a time before the epoch.
pub fn now_secs() -> u64 {
    match since_unix_epoch(&system_now()) {
        Some(d) => whole_seconds(&d),
        None => 0,
    }
}

/// How long ago `ts` was at time `now`, in the largest whole unit: seconds
/// under a minute, minutes under an hour, hours under a day, days beyond.
pub open spec fn ago_text(now: u64, ts: u64) -> Seq<char> {
    let secs: nat = if now >= ts { (now - ts) as nat } else { 0 };
    if secs < 60 {
        decimal_text(secs) + "s ago"@
    } else if secs < 3600 {
        decimal_text(secs / 60) + "m ago"@
    } else if secs < 86400 {
        decimal_text(secs / 3600) + "h ago"@
    } else {
        decimal_text(secs / 86400) + "d ago"@
    }
}

/// How long before `now` the timestamp `ts` lies, as text such as `5m ago`.
pub fn format_ago_at(now: u64, ts: u64) -> (r: String)
    ensures
        r@ == ago_text(now, ts),
{
    let secs = now.saturating_sub(ts);
    if secs < 60 {
        let mut s = decimal_string(secs);
        s.append("s ago");
        s
    } else if secs < 3600 {
        let mut s = decimal_string(secs / 60);
        s.append("m ago");
        s
    } else if secs < 86400 {
        let mut s = decimal_string(secs / 3600);
        s.append("h ago");
        s
    } else {
        let mut s = decimal_string(secs / 86400);
        s.append("d ago");
        s
    }
}

/// How long ago `ts` was, measured against the current time.
pub fn format_ago(ts: u64) -> (r: String)
    ensures
        exists|now: u64| r@ == ago_text(now, ts),
{
    let now = now_secs();
    format_ago_at(now, ts)
}

} // verus!
