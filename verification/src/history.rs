//! The height history: timestamps, the record format `unix-seconds,cm` of the
//! history file, which notifications get recorded, and the window the chart shows.
use vstd::prelude::*;
use crate::decimal::{parse_i64, spec_parse_i64};

verus! {

#[verifier::external_type_specification]
#[verifier::external_body]
pub struct ExSystemTime(std::time::SystemTime);

#[verifier::external_type_specification]
#[verifier::external_body]
pub struct ExSystemTimeError(std::time::SystemTimeError);

/// Calls `SystemTime::now`; the clock's reading is not known to the proofs.
#[verifier::external_body]
fn system_now() -> std::time::SystemTime {
    std::time::SystemTime::now()
}

/// Calls `SystemTime::duration_since` against the Unix epoch; it fails when the
/// clock reads earlier than the epoch, which the proofs cannot know.
#[verifier::external_body]
fn since_unix_epoch(t: &std::time::SystemTime) -> Result<
    std::time::Duration,
    std::time::SystemTimeError,
> {
    t.duration_since(std::time::UNIX_EPOCH)
}

/// Calls `Duration::as_secs`; `Duration` is opaque here, so nothing is stated of it.
#[verifier::external_body]
fn whole_secs(d: &std::time::Duration) -> u64 {
    d.as_secs()
}

/// Two's complement reading of a 64-bit unsigned value as `i64` (what `as i64` does).
pub open spec fn spec_wrap_i64(s: int) -> int {
    if s <= i64::MAX { s } else { s - 0x1_0000_0000_0000_0000 }
}

/// The timestamp for a clock reading: whole seconds since the epoch cast to
/// `i64`, or 0 when the clock reads before the epoch.
pub fn timestamp_from_secs(secs: Option<u64>) -> (t: i64)
    ensures
        t == match secs {
            Some(s) => spec_wrap_i64(s as int),
            None => 0,
        },
{
    match secs {
        Some(s) => {
            if s <= i64::MAX as u64 {
                s as i64
            } else {
                (s - 0x8000_0000_0000_0000u64) as i64 + i64::MIN
            }
        },
        None => 0,
    }
}

/// Current Unix time in whole seconds, 0 when the clock reads before the epoch.
/// The value depends on the clock alone; `timestamp_from_secs` states how a
/// clock reading becomes the timestamp.
pub fn now_ts() -> i64 {
    let now = system_now();
    let secs = match since_unix_epoch(&now) {
        Ok(d) => Some(whole_secs(&d)),
        Err(_) => None,
    };
    timestamp_from_secs(secs)
}

/// Whether `s` holds no comma.
pub open spec fn no_comma(s: Seq<u8>) -> bool {
    forall|j: int| 0 <= j < s.len() ==> #[trigger] s[j] != 0x2Cu8
}

/// Whether `c` is the position of the first comma of `s`.
pub open spec fn is_first_comma(s: Seq<u8>, c: int) -> bool {
    0 <= c < s.len() && s[c] == 0x2Cu8 && no_comma(s.subrange(0, c))
}

/// Splits a history line at its first comma: the timestamp before it, and the
/// index where the height field starts. `None` when there is no comma or the
/// timestamp does not parse as an `i64`.
pub fn record_fields(line: &[u8]) -> (r: Option<(i64, usize)>)
    ensures
        r matches Some((t, at)) ==> is_first_comma(line@, at - 1) && spec_parse_i64(
            line@.subrange(0, at - 1),
        ) == Some(t as int),
        r is None ==> forall|c: int| #[trigger]
            is_first_comma(line@, c) ==> spec_parse_i64(line@.subrange(0, c)) is None,
{
    let mut c: usize = 0;
    while c < line.len() && line[c] != 0x2C
        invariant
            c <= line@.len(),
            no_comma(line@.subrange(0, c as int)),
        decreases line@.len() - c,
    {
        assert(line@.subrange(0, c + 1) =~= line@.subrange(0, c as int).push(line@[c as int]));
        c = c + 1;
    }
    if c == line.len() {
        assert forall|k: int| #[trigger] is_first_comma(line@, k) implies spec_parse_i64(
            line@.subrange(0, k),
        ) is None by {
            assert(line@.subrange(0, c as int)[k] == line@[k]);
        }
        return None;
    }
    assert forall|k: int| #[trigger] is_first_comma(line@, k) implies k == c by {
        if k < c {
            assert(line@.subrange(0, c as int)[k] == line@[k]);
        } else if k > c {
            assert(line@.subrange(0, k)[c as int] == line@[c as int]);
        }
    }
    let mut head: Vec<u8> = Vec::new();
    let mut i: usize = 0;
    while i < c
        invariant
            i <= c < line@.len(),
            head@ =~= line@.subrange(0, i as int),
        decreases c - i,
    {
        head.push(line[i]);
        i = i + 1;
    }
    match parse_i64(head.as_slice()) {
        Some(t) => Some((t, c + 1)),
        None => None,
    }
}

/// Which position notifications get recorded in the history: the first one,
/// then one whenever the raw position changed and the clock moved on by at
/// least a second since the last recorded one.
pub open spec fn spec_should_record(last: Option<(i64, u16)>, ts: i64, raw: u16) -> bool {
    match last {
        None => true,
        Some((t, r)) => r != raw && ts > t,
    }
}

/// The last notification written to the history while listening.
#[derive(Debug, Clone, Copy)]
pub struct NotifyLog {
    /// Timestamp and raw position of the last recorded notification.
    pub last_logged: Option<(i64, u16)>,
}

impl NotifyLog {
    /// A log that has recorded nothing yet.
    pub fn new() -> (l: NotifyLog)
        ensures
            l.last_logged is None,
    {
        NotifyLog { last_logged: None }
    }

    /// Decides whether the notification `(ts, raw)` is recorded, and remembers it if so.
    pub fn record(&mut self, ts: i64, raw: u16) -> (b: bool)
        ensures
            b == spec_should_record(old(self).last_logged, ts, raw),
            final(self).last_logged == (if b {
                Some((ts, raw))
            } else {
                old(self).last_logged
            }),
    {
        let b = match self.last_logged {
            None => true,
            Some((t, r)) => r != raw && ts > t,
        };
        if b {
            self.last_logged = Some((ts, raw));
        }
        b
    }
}

/// Law: while the desk moves, two recorded notifications lie more than a
/// second apart and differ in position, so the history grows by at most one
/// line per second.
pub proof fn law_record_rate(t0: i64, r0: u16, ts: i64, raw: u16)
    requires
        spec_should_record(Some((t0, r0)), ts, raw),
    ensures
        ts > t0,
        raw != r0,
{
}

/// Law: after a recorded notification `(t0, r0)`, a notification is recorded
/// exactly when the desk moved, up or down, and the clock moved on past `t0`;
/// the very first notification is always recorded.
pub proof fn law_record_exactly_when_moved(t0: i64, r0: u16, ts: i64, raw: u16)
    ensures
        spec_should_record(None, ts, raw),
        spec_should_record(Some((t0, r0)), ts, raw) <==> (raw != r0 && ts > t0),
        ts > t0 && raw < r0 ==> spec_should_record(Some((t0, r0)), ts, raw),
        ts > t0 && raw > r0 ==> spec_should_record(Some((t0, r0)), ts, raw),
        ts <= t0 || raw == r0 ==> !spec_should_record(Some((t0, r0)), ts, raw),
{
}

/// The samples at or after `since`, in file order.
pub open spec fn spec_recent<T>(rs: Seq<(i64, T)>, since: i64) -> Seq<(i64, T)>
    decreases rs.len(),
{
    if rs.len() == 0 {
        seq![]
    } else {
        let p = spec_recent(rs.drop_last(), since);
        if rs.last().0 >= since {
            p.push(rs.last())
        } else {
            p
        }
    }
}

/// The value of the last sample before `since`, if any.
pub open spec fn spec_last_before<T>(rs: Seq<(i64, T)>, since: i64) -> Option<T>
    decreases rs.len(),
{
    if rs.len() == 0 {
        None
    } else if rs.last().0 < since {
        Some(rs.last().1)
    } else {
        spec_last_before(rs.drop_last(), since)
    }
}

/// The samples the chart shows from `since` on: the last sample before the
/// window, moved to `since`, followed by every sample in the window.
pub open spec fn spec_window<T>(rs: Seq<(i64, T)>, since: i64) -> Seq<(i64, T)> {
    match spec_last_before(rs, since) {
        Some(v) => seq![(since, v)] + spec_recent(rs, since),
        None => spec_recent(rs, since),
    }
}

/// The samples of the last `secs` seconds before `now`, with the last earlier
/// sample carried to the start of the window so that the chart knows the
/// height from there on.
pub fn recent_samples<T: Copy>(records: &Vec<(i64, T)>, now: i64, secs: i64) -> (w: Vec<(i64, T)>)
    requires
        i64::MIN <= now - secs <= i64::MAX,
    ensures
        w@ == spec_window(records@, (now - secs) as i64),
{
    let since = now - secs;
    let mut before: Option<T> = None;
    let mut recent: Vec<(i64, T)> = Vec::new();
    let mut i: usize = 0;
    while i < records.len()
        invariant
            i <= records@.len(),
            recent@ == spec_recent(records@.subrange(0, i as int), since),
            before == spec_last_before(records@.subrange(0, i as int), since),
        decreases records@.len() - i,
    {
        let ghost pre = records@.subrange(0, i as int);
        assert(records@.subrange(0, i + 1).drop_last() =~= pre);
        let (ts, v) = records[i];
        if ts < since {
            before = Some(v);
        } else {
            recent.push((ts, v));
        }
        i = i + 1;
    }
    assert(records@.subrange(0, records@.len() as int) =~= records@);
    match before {
        Some(v) => {
            let mut w: Vec<(i64, T)> = Vec::new();
            w.push((since, v));
            let mut j: usize = 0;
            while j < recent.len()
                invariant
                    j <= recent@.len(),
                    w@ =~= seq![(since, v)] + recent@.subrange(0, j as int),
                decreases recent@.len() - j,
            {
                w.push(recent[j]);
                j = j + 1;
            }
            assert(recent@.subrange(0, recent@.len() as int) =~= recent@);
            w
        },
        None => recent,
    }
}

/// The records of the lines that parsed, in file order; a line that did not
/// parse (`None`) contributes nothing.
pub open spec fn spec_parsed_records<T>(lines: Seq<Option<(i64, T)>>) -> Seq<(i64, T)>
    decreases lines.len(),
{
    if lines.len() == 0 {
        seq![]
    } else {
        let p = spec_parsed_records(lines.drop_last());
        match lines.last() {
            Some(r) => p.push(r),
            None => p,
        }
    }
}

/// The chart window of the last `secs` seconds before `now` over the lines of
/// the history file, each given as its parsed record or `None` when malformed.
pub fn recent_from_lines<T: Copy>(lines: &Vec<Option<(i64, T)>>, now: i64, secs: i64) -> (w: Vec<
    (i64, T),
>)
    requires
        i64::MIN <= now - secs <= i64::MAX,
    ensures
        w@ == spec_window(spec_parsed_records(lines@), (now - secs) as i64),
{
    let mut records: Vec<(i64, T)> = Vec::new();
    let mut i: usize = 0;
    while i < lines.len()
        invariant
            i <= lines@.len(),
            records@ == spec_parsed_records(lines@.subrange(0, i as int)),
        decreases lines@.len() - i,
    {
        assert(lines@.subrange(0, i + 1).drop_last() =~= lines@.subrange(0, i as int));
        match lines[i] {
            Some(r) => records.push(r),
            None => {},
        }
        i = i + 1;
    }
    assert(lines@.subrange(0, lines@.len() as int) =~= lines@);
    recent_samples(&records, now, secs)
}

proof fn lemma_parsed_concat<T>(a: Seq<Option<(i64, T)>>, b: Seq<Option<(i64, T)>>)
    ensures
        spec_parsed_records(a + b) == spec_parsed_records(a) + spec_parsed_records(b),
    decreases b.len(),
{
    if b.len() == 0 {
        assert(a + b =~= a);
        assert(spec_parsed_records(a) + spec_parsed_records(b) =~= spec_parsed_records(a));
    } else {
        assert((a + b).drop_last() =~= a + b.drop_last());
        lemma_parsed_concat(a, b.drop_last());
        match b.last() {
            Some(r) => {
                assert(spec_parsed_records(a) + spec_parsed_records(b.drop_last()).push(r) =~= (
                spec_parsed_records(a) + spec_parsed_records(b.drop_last())).push(r));
            },
            None => {},
        }
    }
}

/// Law: a malformed line of the history file, wherever it stands, changes
/// neither the records read nor the chart window.
pub proof fn law_malformed_lines_ignored<T>(
    a: Seq<Option<(i64, T)>>,
    b: Seq<Option<(i64, T)>>,
    since: i64,
)
    ensures
        spec_parsed_records(a + seq![None] + b) == spec_parsed_records(a + b),
        spec_window(spec_parsed_records(a + seq![None] + b), since) == spec_window(
            spec_parsed_records(a + b),
            since,
        ),
{
    lemma_parsed_concat(a + seq![None], b);
    lemma_parsed_concat(a, seq![None]);
    lemma_parsed_concat(a, b);
    let none: Seq<Option<(i64, T)>> = seq![None];
    assert(none.drop_last() =~= Seq::<Option<(i64, T)>>::empty());
    assert(none.last() == None::<(i64, T)>);
    assert(spec_parsed_records(Seq::<Option<(i64, T)>>::empty()) =~= Seq::<(i64, T)>::empty());
    assert(spec_parsed_records(none) =~= Seq::<(i64, T)>::empty());
    assert(spec_parsed_records(a) + spec_parsed_records(none) =~= spec_parsed_records(a));
}

/// Interval of the history heartbeat, which records the last known height so
/// that the chart continues while the desk stands still, in seconds.
pub const HEARTBEAT_SECS: u64 = 300;

/// What heartbeat tick number `tick` records, given the last known height: the
/// first tick fires at once and records nothing, every later one records the
/// last known height, if any.
pub fn heartbeat_sample<T: Copy>(tick: u64, last: Option<T>) -> (r: Option<T>)
    ensures
        r == (if tick == 0 {
            None
        } else {
            last
        }),
{
    if tick == 0 {
        None
    } else {
        last
    }
}

/// Law: a record appended at the clock's time `t` ends the chart window read
/// at that time, for any window length.
pub proof fn law_appended_record_ends_window<T>(
    lines: Seq<Option<(i64, T)>>,
    t: i64,
    v: T,
    secs: i64,
)
    requires
        secs >= 0,
        i64::MIN <= t - secs,
    ensures
        ({
            let w = spec_window(spec_parsed_records(lines.push(Some((t, v)))), (t - secs) as i64);
            w.len() > 0 && w.last() == (t, v)
        }),
{
    let rs = spec_parsed_records(lines);
    let since = (t - secs) as i64;
    assert(lines.push(Some((t, v))).drop_last() =~= lines);
    assert(spec_parsed_records(lines.push(Some((t, v)))) == rs.push((t, v)));
    assert(rs.push((t, v)).drop_last() =~= rs);
    assert(spec_recent(rs.push((t, v)), since) == spec_recent(rs, since).push((t, v)));
    assert(spec_last_before(rs.push((t, v)), since) == spec_last_before(rs, since));
}

proof fn lemma_recent_after<T>(rs: Seq<(i64, T)>, since: i64)
    ensures
        forall|k: int| 0 <= k < spec_recent(rs, since).len() ==> #[trigger] spec_recent(
            rs,
            since,
        )[k].0 >= since,
    decreases rs.len(),
{
    if rs.len() > 0 {
        lemma_recent_after(rs.drop_last(), since);
        let p = spec_recent(rs.drop_last(), since);
        let r = spec_recent(rs, since);
        assert forall|k: int| 0 <= k < r.len() implies #[trigger] r[k].0 >= since by {
            if k < p.len() {
                assert(r[k] == p[k]);
            }
        }
    }
}

/// Law: every sample of the chart window lies at or after its start, and the
/// window starts exactly at `since` whenever an earlier sample exists.
pub proof fn law_window_within<T>(rs: Seq<(i64, T)>, since: i64)
    ensures
        forall|k: int| 0 <= k < spec_window(rs, since).len() ==> #[trigger] spec_window(
            rs,
            since,
        )[k].0 >= since,
        spec_last_before(rs, since) is Some ==> spec_window(rs, since)[0].0 == since,
{
    lemma_recent_after(rs, since);
    let w = spec_window(rs, since);
    let r = spec_recent(rs, since);
    if let Some(v) = spec_last_before(rs, since) {
        assert forall|k: int| 0 <= k < w.len() implies #[trigger] w[k].0 >= since by {
            if k > 0 {
                assert(w[k] == r[k - 1]);
            }
        }
    }
}

} // verus!
