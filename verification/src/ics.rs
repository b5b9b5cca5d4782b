//! Bounded-memory scanner for iCalendar byte streams.
//!
//! The scanner walks the stream one line at a time, recognises
//! `BEGIN:VEVENT` / `END:VEVENT` blocks and the `DTSTART`, `DTEND` and
//! `SUMMARY` properties inside them, and collects at most a caller-chosen
//! number of events whose end lies at or after the instant passed in as
//! `now`. A line longer than the line bound is skipped whole; a malformed
//! date discards only the event it belongs to; a line that is not UTF-8
//! aborts the parse.

use crate::text::{check_utf8, is_utf8};
use crate::tz::{civil_secs, civil_to_epoch, days_in_month_x, valid_civil, Tz};
use vstd::prelude::*;

verus! {

/// Capacity of an event's summary text, in bytes.
pub const MAX_SUMMARY_LENGTH: usize = 32;

/// Longest line, in bytes after carriage returns are dropped, the scanner
/// accepts; longer lines are skipped whole.
pub const MAX_LINE_LENGTH: usize = 160;

/// What can go wrong while scanning a calendar stream.
#[derive(Debug, PartialEq, Eq, Structural, Clone, Copy)]
pub enum Error {
    /// A scanned line is not valid UTF-8; the stream cannot be trusted past
    /// it, so the whole parse fails.
    ParseEvent,
    /// A timestamp value does not have the form `YYYYMMDDThhmmss` with an
    /// optional `Z` suffix, or its fields do not name a real instant.
    DateTime,
    /// A summary did not fit its buffer. Kept for API compatibility: the
    /// scanner truncates instead and never returns this.
    PushStr,
}

/// One calendar event: start and end as seconds since the Unix epoch, and a
/// summary of at most [`MAX_SUMMARY_LENGTH`] bytes.
#[derive(Debug)]
pub struct Event {
    pub start: i64,
    pub end: i64,
    pub summary: Vec<u8>,
}

/// Mathematical model of an [`Event`].
pub ghost struct GEvent {
    pub start: int,
    pub end: int,
    pub summary: Seq<u8>,
}

impl View for Event {
    type V = GEvent;

    open spec fn view(&self) -> GEvent {
        GEvent { start: self.start as int, end: self.end as int, summary: self.summary@ }
    }
}

/// An ASCII decimal digit.
pub open spec fn is_digit(b: u8) -> bool {
    48 <= b <= 57
}

/// Value of an ASCII digit.
pub open spec fn dval(b: u8) -> int {
    b - 48
}

/// The two-digit number at position `i`.
pub open spec fn num2(s: Seq<u8>, i: int) -> int {
    dval(s[i]) * 10 + dval(s[i + 1])
}

/// The four-digit number at position `i`.
pub open spec fn num4(s: Seq<u8>, i: int) -> int {
    dval(s[i]) * 1000 + dval(s[i + 1]) * 100 + dval(s[i + 2]) * 10 + dval(s[i + 3])
}

/// Digits stand in all date and time positions of `YYYYMMDDThhmmss`.
pub open spec fn ts_digits_ok(s: Seq<u8>) -> bool {
    forall|i: int| (0 <= i < 8 || 9 <= i < 15) ==> is_digit(#[trigger] s[i])
}

/// The byte shape of a timestamp: `YYYYMMDDThhmmss`, optionally followed by
/// a single `Z`.
pub open spec fn ts_wellformed(s: Seq<u8>) -> bool {
    &&& (s.len() == 15 || (s.len() == 16 && s[15] == 90))
    &&& s[8] == 84
    &&& ts_digits_ok(s)
}

/// A `Z`-suffixed timestamp denotes a UTC civil time.
pub open spec fn ts_is_utc(s: Seq<u8>) -> bool {
    s.len() == 16
}

/// The civil fields of a well-formed timestamp name a real date and time.
pub open spec fn ts_fields_valid(s: Seq<u8>) -> bool {
    valid_civil(num4(s, 0), num2(s, 4), num2(s, 6), num2(s, 9), num2(s, 11), num2(s, 13))
}

/// Seconds since the epoch of the timestamp's civil fields, read as UTC.
pub open spec fn ts_civil(s: Seq<u8>) -> int {
    civil_secs(num4(s, 0), num2(s, 4), num2(s, 6), num2(s, 9), num2(s, 11), num2(s, 13))
}

/// The absolute instant a timestamp denotes under the zone offset `off`:
/// a `Z` suffix marks the civil fields as UTC, otherwise they are local to
/// the configured zone. `None` when the timestamp is malformed.
pub open spec fn ts_instant(s: Seq<u8>, off: int) -> Option<int> {
    if ts_wellformed(s) && ts_fields_valid(s) {
        if ts_is_utc(s) {
            Some(ts_civil(s))
        } else {
            Some(ts_civil(s) - off)
        }
    } else {
        None
    }
}

/// A timestamp and the same digit sequence with a `Z` suffix denote
/// instants exactly the zone offset apart — so they agree just when the
/// configured zone's UTC offset is zero.
pub proof fn lemma_utc_suffix_shifts_instant(s: Seq<u8>, off: int)
    requires
        ts_instant(s, off) is Some,
        !ts_is_utc(s),
    ensures
        ts_instant(s.push(90), off) == Some(ts_instant(s, off)->Some_0 + off),
        (ts_instant(s.push(90), off) == ts_instant(s, off)) <==> (off == 0),
{
    let z = s.push(90);
    assert(z.len() == 16 && z[15] == 90);
    assert(forall|i: int| 0 <= i < 15 ==> z[i] == s[i]);
    assert(ts_wellformed(z));
    assert(num4(z, 0) == num4(s, 0) && num2(z, 4) == num2(s, 4) && num2(z, 6) == num2(s, 6)
        && num2(z, 9) == num2(s, 9) && num2(z, 11) == num2(s, 11) && num2(z, 13) == num2(s, 13));
}

/// The two-digit number at `i`, for digits checked by the caller.
fn num2_x(s: &[u8], i: usize) -> (r: u64)
    requires
        i + 2 <= s@.len(),
        is_digit(s@[i as int]),
        is_digit(s@[i + 1]),
    ensures
        r == num2(s@, i as int),
        0 <= r <= 99,
{
    (s[i] - 48) as u64 * 10 + (s[i + 1] - 48) as u64
}

/// The four-digit number at `i`, for digits checked by the caller.
fn num4_x(s: &[u8], i: usize) -> (r: u64)
    requires
        i + 4 <= s@.len(),
        is_digit(s@[i as int]),
        is_digit(s@[i + 1]),
        is_digit(s@[i + 2]),
        is_digit(s@[i + 3]),
    ensures
        r == num4(s@, i as int),
        0 <= r <= 9999,
{
    (s[i] - 48) as u64 * 1000 + (s[i + 1] - 48) as u64 * 100 + (s[i + 2] - 48) as u64 * 10 + (s[i
        + 3] - 48) as u64
}

/// Parse a `YYYYMMDDThhmmss[Z]` timestamp into the absolute instant it
/// denotes in the given zone, in seconds since the Unix epoch.
pub fn parse_ics_timestamp(s: &[u8], timezone: &Tz) -> (r: Result<i64, Error>)
    requires
        timezone.wf(),
    ensures
        match r {
            Ok(v) => ts_instant(s@, timezone.offset_sec as int) == Some(v as int),
            Err(e) => ts_instant(s@, timezone.offset_sec as int) is None && e == Error::DateTime,
        },
{
    let n = s.len();
    if !(n == 15 || (n == 16 && s[15] == 90)) {
        return Err(Error::DateTime);
    }
    if s[8] != 84 {
        return Err(Error::DateTime);
    }
    let mut i: usize = 0;
    while i < 15
        invariant
            0 <= i <= 15,
            s@.len() >= 15,
            forall|j: int| (0 <= j < 8 || 9 <= j < 15) && j < i ==> is_digit(#[trigger] s@[j]),
        decreases 15 - i,
    {
        if i != 8 && !(s[i] >= 48 && s[i] <= 57) {
            return Err(Error::DateTime);
        }
        i = i + 1;
    }
    assert(ts_wellformed(s@));
    let y = num4_x(s, 0);
    let mo = num2_x(s, 4);
    let d = num2_x(s, 6);
    let h = num2_x(s, 9);
    let mi = num2_x(s, 11);
    let sec = num2_x(s, 13);
    if !(1 <= mo && mo <= 12) {
        return Err(Error::DateTime);
    }
    if !(1 <= d && d <= days_in_month_x(y, mo)) {
        return Err(Error::DateTime);
    }
    if !(h <= 23 && mi <= 59 && sec <= 59) {
        return Err(Error::DateTime);
    }
    assert(ts_fields_valid(s@));
    let civil: i64 = civil_to_epoch(y, mo, d, h, mi, sec);
    if n == 16 {
        Ok(civil)
    } else {
        Ok(civil - timezone.offset_sec as i64)
    }
}

/// `s` begins with `p`.
pub open spec fn starts_with(s: Seq<u8>, p: Seq<u8>) -> bool {
    s.len() >= p.len() && forall|i: int| 0 <= i < p.len() ==> s[i] == p[i]
}

/// The bytes of `BEGIN:VEVENT`.
pub open spec fn kw_begin() -> Seq<u8> {
    seq![66u8, 69, 71, 73, 78, 58, 86, 69, 86, 69, 78, 84]
}

/// The bytes of `END:VEVENT`.
pub open spec fn kw_end() -> Seq<u8> {
    seq![69u8, 78, 68, 58, 86, 69, 86, 69, 78, 84]
}

/// The bytes of `DTEND`.
pub open spec fn kw_dtend() -> Seq<u8> {
    seq![68u8, 84, 69, 78, 68]
}

/// The bytes of `DTSTART`.
pub open spec fn kw_dtstart() -> Seq<u8> {
    seq![68u8, 84, 83, 84, 65, 82, 84]
}

/// The bytes of `SUMMARY:`.
pub open spec fn kw_summary() -> Seq<u8> {
    seq![83u8, 85, 77, 77, 65, 82, 89, 58]
}

/// Index of the first `:` at or after `i`, if any.
pub open spec fn first_colon(l: Seq<u8>, i: int) -> Option<int>
    decreases l.len() - i when i <= l.len()
{
    if i < 0 || i >= l.len() {
        None
    } else if l[i] == 58 {
        Some(i)
    } else {
        first_colon(l, i + 1)
    }
}

/// The event accumulator: fields gathered since the last `BEGIN:VEVENT`.
#[verifier::ext_equal]
pub ghost struct Acc {
    pub start: int,
    pub end: int,
    pub summary: Seq<u8>,
    pub has_start: bool,
    pub has_end: bool,
}

/// A freshly zeroed accumulator.
pub open spec fn empty_acc() -> Acc {
    Acc { start: 0, end: 0, summary: seq![], has_start: false, has_end: false }
}

/// The scanner's full state between lines.
#[verifier::ext_equal]
pub ghost struct PState {
    /// True in `ScanningForEvent`, false in `InsideEvent`.
    pub scanning: bool,
    pub acc: Acc,
    pub out: Seq<GEvent>,
    /// The output reached its capacity; no further input is consumed.
    pub done: bool,
}

/// The scanner's state before the first line.
pub open spec fn init_state() -> PState {
    PState { scanning: true, acc: empty_acc(), out: seq![], done: false }
}

/// What one line does to the scanner's state.
pub open spec fn step_line(st: PState, l: Seq<u8>, now: int, off: int, cap: int) -> PState {
    if starts_with(l, kw_begin()) {
        PState { scanning: false, acc: empty_acc(), ..st }
    } else if starts_with(l, kw_end()) {
        let out2 = if !st.scanning && st.acc.has_start && st.acc.has_end && st.out.len() < cap {
            st.out.push(GEvent { start: st.acc.start, end: st.acc.end, summary: st.acc.summary })
        } else {
            st.out
        };
        PState { scanning: true, acc: empty_acc(), out: out2, done: out2.len() >= cap }
    } else if st.scanning {
        st
    } else if starts_with(l, kw_dtend()) {
        match first_colon(l, 0) {
            Option::None => PState { scanning: true, ..st },
            Option::Some(c) => match ts_instant(l.skip(c + 1), off) {
                Option::None => PState { scanning: true, ..st },
                Option::Some(v) => if v < now {
                    PState { scanning: true, ..st }
                } else {
                    PState { acc: Acc { end: v, has_end: true, ..st.acc }, ..st }
                },
            },
        }
    } else if starts_with(l, kw_dtstart()) {
        match first_colon(l, 0) {
            Option::None => PState { scanning: true, ..st },
            Option::Some(c) => match ts_instant(l.skip(c + 1), off) {
                Option::None => PState { scanning: true, ..st },
                Option::Some(v) => PState {
                    acc: Acc { start: v, has_start: true, ..st.acc },
                    ..st
                },
            },
        }
    } else if starts_with(l, kw_summary()) {
        let rest = l.skip(8);
        let room: int = if st.acc.summary.len() >= 32 {
            0
        } else {
            32 - st.acc.summary.len()
        };
        let add = if rest.len() <= room {
            rest
        } else {
            rest.take(room)
        };
        PState { acc: Acc { summary: st.acc.summary + add, ..st.acc }, ..st }
    } else {
        st
    }
}

/// Run the scanner over a sequence of already-split lines: oversized lines
/// are skipped, a line that is not UTF-8 aborts, and a full output stops
/// consumption.
pub open spec fn run_lines(st: PState, ls: Seq<Seq<u8>>, now: int, off: int, cap: int) -> Result<
    Seq<GEvent>,
    Error,
>
    decreases ls.len(),
{
    if ls.len() == 0 || st.done {
        Ok(st.out)
    } else {
        let l = ls[0];
        if l.len() >= MAX_LINE_LENGTH {
            run_lines(st, ls.drop_first(), now, off, cap)
        } else if !is_utf8(l) {
            Err(Error::ParseEvent)
        } else {
            run_lines(step_line(st, l, now, off, cap), ls.drop_first(), now, off, cap)
        }
    }
}

/// The `\n`-terminated lines of `s` from position `i` onwards, carriage
/// returns dropped, `cur` being the part of the current line already seen.
/// Bytes after the last `\n` never form a line.
pub open spec fn lines_acc(s: Seq<u8>, i: int, cur: Seq<u8>) -> Seq<Seq<u8>>
    decreases s.len() - i when i <= s.len()
{
    if i < 0 || i >= s.len() {
        seq![]
    } else if s[i] == 10 {
        seq![cur] + lines_acc(s, i + 1, seq![])
    } else if s[i] == 13 {
        lines_acc(s, i + 1, cur)
    } else {
        lines_acc(s, i + 1, cur.push(s[i]))
    }
}

/// The `\n`-terminated lines of `s`, carriage returns dropped.
pub open spec fn terminated_lines(s: Seq<u8>) -> Seq<Seq<u8>> {
    lines_acc(s, 0, seq![])
}

/// What parsing a whole byte stream yields.
pub open spec fn parse_spec(input: Seq<u8>, now: int, off: int, cap: int) -> Result<
    Seq<GEvent>,
    Error,
> {
    run_lines(init_state(), terminated_lines(input), now, off, cap)
}

/// The models of a sequence of events.
pub open spec fn gevents(s: Seq<Event>) -> Seq<GEvent> {
    s.map_values(|e: Event| e@)
}

/// Whether `l` begins with `p`.
fn starts_with_x(l: &[u8], p: &[u8]) -> (r: bool)
    ensures
        r == starts_with(l@, p@),
{
    if l.len() < p.len() {
        return false;
    }
    let mut j: usize = 0;
    while j < p.len()
        invariant
            j <= p@.len(),
            l@.len() >= p@.len(),
            forall|k: int| 0 <= k < j ==> l@[k] == p@[k],
        decreases p@.len() - j,
    {
        if l[j] != p[j] {
            return false;
        }
        j = j + 1;
    }
    true
}

/// The bytes of `BEGIN:VEVENT`.
fn kw_begin_x() -> (r: Vec<u8>)
    ensures
        r@ == kw_begin(),
{
    let v: Vec<u8> = vec![66u8, 69, 71, 73, 78, 58, 86, 69, 86, 69, 78, 84];
    proof {
        assert(v@ =~= kw_begin());
    }
    v
}

/// The bytes of `END:VEVENT`.
fn kw_end_x() -> (r: Vec<u8>)
    ensures
        r@ == kw_end(),
{
    let v: Vec<u8> = vec![69u8, 78, 68, 58, 86, 69, 86, 69, 78, 84];
    proof {
        assert(v@ =~= kw_end());
    }
    v
}

/// The bytes of `DTEND`.
fn kw_dtend_x() -> (r: Vec<u8>)
    ensures
        r@ == kw_dtend(),
{
    let v: Vec<u8> = vec![68u8, 84, 69, 78, 68];
    proof {
        assert(v@ =~= kw_dtend());
    }
    v
}

/// The bytes of `DTSTART`.
fn kw_dtstart_x() -> (r: Vec<u8>)
    ensures
        r@ == kw_dtstart(),
{
    let v: Vec<u8> = vec![68u8, 84, 83, 84, 65, 82, 84];
    proof {
        assert(v@ =~= kw_dtstart());
    }
    v
}

/// The bytes of `SUMMARY:`.
fn kw_summary_x() -> (r: Vec<u8>)
    ensures
        r@ == kw_summary(),
{
    let v: Vec<u8> = vec![83u8, 85, 77, 77, 65, 82, 89, 58];
    proof {
        assert(v@ =~= kw_summary());
    }
    v
}

/// Index of the first `:` in `l`, if any.
fn first_colon_x(l: &[u8]) -> (r: Option<usize>)
    ensures
        match r {
            Some(c) => first_colon(l@, 0) == Some(c as int) && c < l@.len(),
            None => first_colon(l@, 0) is None,
        },
{
    let mut j: usize = 0;
    while j < l.len() && l[j] != 58
        invariant
            j <= l@.len(),
            first_colon(l@, 0) == first_colon(l@, j as int),
        decreases l@.len() - j,
    {
        j = j + 1;
    }
    if j < l.len() {
        Some(j)
    } else {
        None
    }
}

/// The scanner's state between lines: parser state, event accumulator, and
/// the events committed so far.
pub struct Parser {
    /// True while scanning for the next `BEGIN:VEVENT`.
    pub scanning: bool,
    pub acc_start: i64,
    pub acc_end: i64,
    pub acc_summary: Vec<u8>,
    pub has_start: bool,
    pub has_end: bool,
    pub out: Vec<Event>,
    /// The output reached its capacity; the parse is over.
    pub done: bool,
}

impl View for Parser {
    type V = PState;

    open spec fn view(&self) -> PState {
        PState {
            scanning: self.scanning,
            acc: Acc {
                start: self.acc_start as int,
                end: self.acc_end as int,
                summary: self.acc_summary@,
                has_start: self.has_start,
                has_end: self.has_end,
            },
            out: gevents(self.out@),
            done: self.done,
        }
    }
}

/// Bounds every reachable scanner state keeps: the output never exceeds the
/// capacity, every committed event ends at or after `now`, and summaries
/// respect their byte capacity.
pub open spec fn parser_wf(p: Parser, now: int, cap: int) -> bool {
    &&& p.out@.len() <= cap
    &&& forall|k: int|
        0 <= k < p.out@.len() ==> (#[trigger] p.out@[k]).end >= now && p.out@[k].summary@.len()
            <= MAX_SUMMARY_LENGTH
    &&& p.acc_summary@.len() <= MAX_SUMMARY_LENGTH
    &&& (p.has_end ==> p.acc_end >= now)
}

impl Parser {
    /// The state before the first line.
    pub fn new() -> (r: Parser)
        ensures
            r@ == init_state(),
            forall|now: int, cap: int| cap >= 0 ==> parser_wf(r, now, cap),
    {
        let r = Parser {
            scanning: true,
            acc_start: 0,
            acc_end: 0,
            acc_summary: Vec::new(),
            has_start: false,
            has_end: false,
            out: Vec::new(),
            done: false,
        };
        proof {
            assert(r@ =~= init_state());
        }
        r
    }

    /// Feed one complete line (shorter than the line bound, carriage returns
    /// already dropped) to the scanner.
    pub fn process_line(&mut self, line: &[u8], now: i64, timezone: &Tz, max_events: usize)
        requires
            timezone.wf(),
            !old(self).done,
            parser_wf(*old(self), now as int, max_events as int),
        ensures
            final(self)@ == step_line(
                old(self)@,
                line@,
                now as int,
                timezone.offset_sec as int,
                max_events as int,
            ),
            parser_wf(*final(self), now as int, max_events as int),
    {
        let ghost st0 = self@;
        let ghost target = step_line(
            st0,
            line@,
            now as int,
            timezone.offset_sec as int,
            max_events as int,
        );
        let begin = kw_begin_x();
        let end_kw = kw_end_x();
        if starts_with_x(line, begin.as_slice()) {
            self.scanning = false;
            self.acc_start = 0;
            self.acc_end = 0;
            self.acc_summary = Vec::new();
            self.has_start = false;
            self.has_end = false;
            proof {
                assert(self@ =~= target);
            }
            return;
        }
        if starts_with_x(line, end_kw.as_slice()) {
            if !self.scanning && self.has_start && self.has_end && self.out.len() < max_events {
                let mut summary: Vec<u8> = Vec::new();
                core::mem::swap(&mut summary, &mut self.acc_summary);
                let ev = Event { start: self.acc_start, end: self.acc_end, summary };
                let ghost gv = ev@;
                self.out.push(ev);
                proof {
                    assert(gevents(self.out@) =~= st0.out.push(gv));
                }
            }
            self.scanning = true;
            self.acc_start = 0;
            self.acc_end = 0;
            self.acc_summary = Vec::new();
            self.has_start = false;
            self.has_end = false;
            self.done = self.out.len() >= max_events;
            proof {
                assert(self@ =~= target);
            }
            return;
        }
        if self.scanning {
            proof {
                assert(self@ =~= target);
            }
            return;
        }
        let dtend = kw_dtend_x();
        let dtstart = kw_dtstart_x();
        if starts_with_x(line, dtend.as_slice()) {
            match first_colon_x(line) {
                None => {
                    self.scanning = true;
                },
                Some(c) => {
                    let n = line.len();
                    let val = vstd::slice::slice_subrange(line, c + 1, n);
                    proof {
                        assert(val@ =~= line@.skip(c + 1));
                    }
                    match parse_ics_timestamp(val, timezone) {
                        Err(_) => {
                            self.scanning = true;
                        },
                        Ok(v) => {
                            if v < now {
                                self.scanning = true;
                            } else {
                                self.acc_end = v;
                                self.has_end = true;
                            }
                        },
                    }
                },
            }
            proof {
                assert(self@ =~= target);
            }
            return;
        }
        if starts_with_x(line, dtstart.as_slice()) {
            match first_colon_x(line) {
                None => {
                    self.scanning = true;
                },
                Some(c) => {
                    let n = line.len();
                    let val = vstd::slice::slice_subrange(line, c + 1, n);
                    proof {
                        assert(val@ =~= line@.skip(c + 1));
                    }
                    match parse_ics_timestamp(val, timezone) {
                        Err(_) => {
                            self.scanning = true;
                        },
                        Ok(v) => {
                            self.acc_start = v;
                            self.has_start = true;
                        },
                    }
                },
            }
            proof {
                assert(self@ =~= target);
            }
            return;
        }
        let summary_kw = kw_summary_x();
        if starts_with_x(line, summary_kw.as_slice()) {
            let ghost old_sum = self.acc_summary@;
            let mut k: usize = 8;
            proof {
                assert(old_sum + line@.subrange(8, 8) =~= old_sum);
            }
            while k < line.len() && self.acc_summary.len() < MAX_SUMMARY_LENGTH
                invariant
                    self.scanning == old(self).scanning,
                    self.acc_start == old(self).acc_start,
                    self.acc_end == old(self).acc_end,
                    self.has_start == old(self).has_start,
                    self.has_end == old(self).has_end,
                    self.out@ == old(self).out@,
                    self.done == old(self).done,
                    8 <= k <= line@.len(),
                    line@.len() >= 8,
                    self.acc_summary@ == old_sum + line@.subrange(8, k as int),
                    self.acc_summary@.len() <= MAX_SUMMARY_LENGTH,
                    self.acc_summary@.len() == old_sum.len() + k - 8,
                decreases line@.len() - k,
            {
                let b = line[k];
                self.acc_summary.push(b);
                proof {
                    assert(old_sum + line@.subrange(8, k as int + 1) =~= (old_sum + line@.subrange(
                        8,
                        k as int,
                    )).push(b));
                }
                k = k + 1;
            }
            proof {
                let rest = line@.skip(8);
                let room: int = if st0.acc.summary.len() >= 32 {
                    0
                } else {
                    32 - st0.acc.summary.len()
                };
                let add = if rest.len() <= room {
                    rest
                } else {
                    rest.take(room)
                };
                if k == line@.len() {
                    assert(line@.subrange(8, k as int) =~= rest);
                    assert(rest.len() <= room);
                } else {
                    assert(self.acc_summary@.len() == MAX_SUMMARY_LENGTH);
                    assert(line@.subrange(8, k as int) =~= rest.take(room));
                }
                assert(self.acc_summary@ == st0.acc.summary + add);
                assert(self@ =~= target);
            }
            return;
        }
        proof {
            assert(self@ =~= target);
        }
    }
}

/// The empty line, for resetting the scanner's line accumulator.
pub open spec fn empty_line() -> Seq<u8> {
    seq![]
}

/// The scanner's knowledge after consuming `fed` with current line `cur` in
/// state `p`: however the stream goes on, scanning the whole of it equals
/// running the model from here.
pub open spec fn stream_rel(
    p: PState,
    fed: Seq<u8>,
    cur: Seq<u8>,
    now: int,
    off: int,
    cap: int,
) -> bool {
    forall|ext: Seq<u8>|
        #![trigger terminated_lines(fed + ext)]
        run_lines(init_state(), terminated_lines(fed + ext), now, off, cap) == run_lines(
            p,
            lines_acc(fed + ext, fed.len() as int, cur),
            now,
            off,
            cap,
        )
}

/// Feeding one byte that is no line end extends the current line; a
/// carriage return disappears.
proof fn lemma_feed_plain_byte(
    p: PState,
    fed: Seq<u8>,
    cur: Seq<u8>,
    b: u8,
    now: int,
    off: int,
    cap: int,
)
    requires
        stream_rel(p, fed, cur, now, off, cap),
        b != 10,
    ensures
        b == 13 ==> stream_rel(p, fed.push(b), cur, now, off, cap),
        b != 13 ==> stream_rel(p, fed.push(b), cur.push(b), now, off, cap),
{
    let fed1 = fed.push(b);
    let cur1 = if b == 13 {
        cur
    } else {
        cur.push(b)
    };
    assert forall|ext: Seq<u8>|
        run_lines(init_state(), #[trigger] terminated_lines(fed1 + ext), now, off, cap)
            == run_lines(
            p,
            lines_acc(fed1 + ext, fed1.len() as int, cur1),
            now,
            off,
            cap,
        ) by {
        let ext0 = seq![b] + ext;
        assert(fed1 + ext =~= fed + ext0);
        assert(run_lines(init_state(), terminated_lines(fed + ext0), now, off, cap) == run_lines(
            p,
            lines_acc(fed + ext0, fed.len() as int, cur),
            now,
            off,
            cap,
        ));
        assert((fed + ext0)[fed.len() as int] == b);
        assert(lines_acc(fed + ext0, fed.len() as int, cur) == lines_acc(
            fed + ext0,
            fed.len() as int + 1,
            cur1,
        ));
    }
}

/// Feeding a line feed closes the current line: the model's remaining lines
/// start with it.
proof fn lemma_feed_newline(
    p: PState,
    fed: Seq<u8>,
    cur: Seq<u8>,
    now: int,
    off: int,
    cap: int,
)
    requires
        stream_rel(p, fed, cur, now, off, cap),
    ensures
        forall|ext: Seq<u8>|
            #![trigger terminated_lines(fed.push(10) + ext)]
            run_lines(init_state(), terminated_lines(fed.push(10) + ext), now, off, cap)
                == run_lines(
                p,
                seq![cur] + lines_acc(fed.push(10) + ext, fed.len() as int + 1, seq![]),
                now,
                off,
                cap,
            ),
{
    let fed1 = fed.push(10u8);
    assert forall|ext: Seq<u8>|
        run_lines(init_state(), #[trigger] terminated_lines(fed1 + ext), now, off, cap)
            == run_lines(
            p,
            seq![cur] + lines_acc(fed1 + ext, fed.len() as int + 1, seq![]),
            now,
            off,
            cap,
        ) by {
        let ext0 = seq![10u8] + ext;
        assert(fed1 + ext =~= fed + ext0);
        assert(run_lines(init_state(), terminated_lines(fed + ext0), now, off, cap) == run_lines(
            p,
            lines_acc(fed + ext0, fed.len() as int, cur),
            now,
            off,
            cap,
        ));
        assert((fed + ext0)[fed.len() as int] == 10);
        assert(lines_acc(fed + ext0, fed.len() as int, cur) == seq![cur] + lines_acc(
            fed + ext0,
            fed.len() as int + 1,
            seq![],
        ));
    }
}

/// Once every continuation of the stream yields one fixed result, feeding
/// more bytes cannot change it.
proof fn lemma_feed_absorbed(
    fed: Seq<u8>,
    more: Seq<u8>,
    result: Result<Seq<GEvent>, Error>,
    now: int,
    off: int,
    cap: int,
)
    requires
        forall|ext: Seq<u8>|
            #![trigger terminated_lines(fed + ext)]
            run_lines(init_state(), terminated_lines(fed + ext), now, off, cap) == result,
    ensures
        forall|ext: Seq<u8>|
            #![trigger terminated_lines(fed + more + ext)]
            run_lines(init_state(), terminated_lines(fed + more + ext), now, off, cap) == result,
{
    assert forall|ext: Seq<u8>|
        run_lines(init_state(), #[trigger] terminated_lines(fed + more + ext), now, off, cap)
            == result by {
        assert(fed + more + ext =~= fed + (more + ext));
        assert(run_lines(init_state(), terminated_lines(fed + (more + ext)), now, off, cap)
            == result);
    }
}

/// Streaming front end of the scanner: bytes arrive in chunks, a fixed-size
/// buffer assembles lines, and at most `max_events` events are collected.
/// Once the output is full or a line failed to decode, further input is
/// ignored, so total work stays bounded whatever the stream sends.
pub struct StreamParser {
    /// The instant events must end at or after.
    pub now: i64,
    /// The configured zone, for timestamps without a UTC marker.
    pub timezone: Tz,
    /// Capacity of the output.
    pub max_events: usize,
    /// The line scanner.
    pub parser: Parser,
    /// The bytes of the current line, up to the line bound.
    pub line: Vec<u8>,
    /// A line was not valid UTF-8; the parse is failed for good.
    pub failed: bool,
    /// All bytes fed so far.
    pub fed: Ghost<Seq<u8>>,
    /// The current unterminated line, carriage returns dropped.
    pub cur: Ghost<Seq<u8>>,
}

impl StreamParser {
    /// The configured zone's offset.
    pub open spec fn off(self) -> int {
        self.timezone.offset_sec as int
    }

    /// What scanning the bytes fed so far has settled: an unrecoverable
    /// decode failure, a full output that no longer consumes input, or a
    /// running scanner whose state determines the rest of the parse.
    pub open spec fn inv(self) -> bool {
        &&& self.timezone.wf()
        &&& parser_wf(self.parser, self.now as int, self.max_events as int)
        &&& if self.failed {
            forall|ext: Seq<u8>|
                #![trigger terminated_lines(self.fed@ + ext)]
                run_lines(
                    init_state(),
                    terminated_lines(self.fed@ + ext),
                    self.now as int,
                    self.off(),
                    self.max_events as int,
                ) == Err::<Seq<GEvent>, Error>(Error::ParseEvent)
        } else if self.parser.done {
            forall|ext: Seq<u8>|
                #![trigger terminated_lines(self.fed@ + ext)]
                run_lines(
                    init_state(),
                    terminated_lines(self.fed@ + ext),
                    self.now as int,
                    self.off(),
                    self.max_events as int,
                ) == Ok::<Seq<GEvent>, Error>(gevents(self.parser.out@))
        } else {
            &&& self.line@ == (if self.cur@.len() <= MAX_LINE_LENGTH {
                self.cur@
            } else {
                self.cur@.take(MAX_LINE_LENGTH as int)
            })
            &&& stream_rel(
                self.parser@,
                self.fed@,
                self.cur@,
                self.now as int,
                self.off(),
                self.max_events as int,
            )
        }
    }

    /// A scanner for one parse call: nothing fed, nothing collected.
    pub fn new(now: i64, timezone: Tz, max_events: usize) -> (r: StreamParser)
        requires
            timezone.wf(),
        ensures
            r.inv(),
            r.fed@ == Seq::<u8>::empty(),
            r.now == now,
            r.timezone == timezone,
            r.max_events == max_events,
    {
        let ghost empty: Seq<u8> = seq![];
        let r = StreamParser {
            now,
            timezone,
            max_events,
            parser: Parser::new(),
            line: Vec::new(),
            failed: false,
            fed: Ghost(empty),
            cur: Ghost(empty),
        };
        proof {
            assert forall|ext: Seq<u8>|
                run_lines(
                    init_state(),
                    #[trigger] terminated_lines(r.fed@ + ext),
                    now as int,
                    r.off(),
                    max_events as int,
                ) == run_lines(
                    r.parser@,
                    lines_acc(r.fed@ + ext, r.fed@.len() as int, r.cur@),
                    now as int,
                    r.off(),
                    max_events as int,
                ) by {
                assert(r.fed@ + ext =~= ext);
            }
        }
        r
    }

    /// Whether the parse is over: the output is full or a line failed to
    /// decode. Either way, further input is ignored, so the caller may stop
    /// reading the stream.
    pub fn is_done(&self) -> (r: bool)
        ensures
            r == (self.parser.done || self.failed),
    {
        self.parser.done || self.failed
    }

    /// Feed the next chunk of the stream to the scanner.
    pub fn push_bytes(&mut self, chunk: &[u8])
        requires
            old(self).inv(),
        ensures
            final(self).inv(),
            final(self).fed@ == old(self).fed@ + chunk@,
            final(self).now == old(self).now,
            final(self).timezone == old(self).timezone,
            final(self).max_events == old(self).max_events,
    {
        let ghost now = self.now as int;
        let ghost off = self.off();
        let ghost cap = self.max_events as int;
        if self.failed || self.parser.done {
            proof {
                if self.failed {
                    lemma_feed_absorbed(
                        self.fed@,
                        chunk@,
                        Err(Error::ParseEvent),
                        now,
                        off,
                        cap,
                    );
                } else {
                    lemma_feed_absorbed(
                        self.fed@,
                        chunk@,
                        Ok(gevents(self.parser.out@)),
                        now,
                        off,
                        cap,
                    );
                }
            }
            self.fed = Ghost(self.fed@ + chunk@);
            return;
        }
        let n = chunk.len();
        let mut i: usize = 0;
        proof {
            assert(self.fed@ + chunk@.take(0) =~= self.fed@);
        }
        while i < n
            invariant
                i <= n,
                n == chunk@.len(),
                self.inv(),
                !self.failed,
                !self.parser.done,
                self.fed@ == old(self).fed@ + chunk@.take(i as int),
                self.now == old(self).now,
                self.timezone == old(self).timezone,
                self.max_events == old(self).max_events,
                now == self.now as int,
                off == self.off(),
                cap == self.max_events as int,
            decreases n - i,
        {
            let b = chunk[i];
            let ghost fed0 = self.fed@;
            let ghost cur0 = self.cur@;
            proof {
                assert(fed0.push(b) =~= old(self).fed@ + chunk@.take(i as int + 1));
            }
            if b == 10 {
                proof {
                    lemma_feed_newline(self.parser@, fed0, cur0, now, off, cap);
                }
                let ghost fed1 = fed0.push(10u8);
                if self.line.len() < MAX_LINE_LENGTH {
                    proof {
                        assert(cur0 == self.line@);
                    }
                    if !check_utf8(self.line.as_slice()) {
                        self.failed = true;
                        self.line.clear();
                        proof {
                            assert forall|ext: Seq<u8>|
                                run_lines(
                                    init_state(),
                                    #[trigger] terminated_lines(fed1 + ext),
                                    now,
                                    off,
                                    cap,
                                ) == Err::<Seq<GEvent>, Error>(Error::ParseEvent) by {
                                let ls = seq![cur0] + lines_acc(fed1 + ext, fed0.len() as int + 1, seq![]);
                                assert(ls[0] == cur0 && ls.len() > 0);
                            }
                            lemma_feed_absorbed(
                                fed1,
                                chunk@.skip(i as int + 1),
                                Err(Error::ParseEvent),
                                now,
                                off,
                                cap,
                            );
                            assert(fed1 + chunk@.skip(i as int + 1) =~= old(self).fed@ + chunk@);
                        }
                        self.fed = Ghost(old(self).fed@ + chunk@);
                        self.cur = Ghost(empty_line());
                        return;
                    }
                    let ghost p0 = self.parser@;
                    let timezone = self.timezone;
                    let max_events = self.max_events;
                    self.parser.process_line(self.line.as_slice(), self.now, &timezone, max_events);
                    let ghost p1 = self.parser@;
                    proof {
                        assert forall|ext: Seq<u8>|
                            run_lines(
                                init_state(),
                                #[trigger] terminated_lines(fed1 + ext),
                                now,
                                off,
                                cap,
                            ) == run_lines(
                                p1,
                                lines_acc(fed1 + ext, fed1.len() as int, seq![]),
                                now,
                                off,
                                cap,
                            ) by {
                            let rest = lines_acc(fed1 + ext, fed0.len() as int + 1, seq![]);
                            let ls = seq![cur0] + rest;
                            assert(ls[0] == cur0 && ls.len() > 0);
                            assert(ls.drop_first() =~= rest);
                            assert(p1 == step_line(p0, cur0, now, off, cap));
                        }
                    }
                    if self.parser.done {
                        proof {
                            assert forall|ext: Seq<u8>|
                                run_lines(
                                    init_state(),
                                    #[trigger] terminated_lines(fed1 + ext),
                                    now,
                                    off,
                                    cap,
                                ) == Ok::<Seq<GEvent>, Error>(gevents(self.parser.out@)) by {
                                assert(run_lines(
                                    p1,
                                    lines_acc(fed1 + ext, fed1.len() as int, seq![]),
                                    now,
                                    off,
                                    cap,
                                ) == Ok::<Seq<GEvent>, Error>(p1.out));
                            }
                            lemma_feed_absorbed(
                                fed1,
                                chunk@.skip(i as int + 1),
                                Ok(gevents(self.parser.out@)),
                                now,
                                off,
                                cap,
                            );
                            assert(fed1 + chunk@.skip(i as int + 1) =~= old(self).fed@ + chunk@);
                        }
                        self.line.clear();
                        self.fed = Ghost(old(self).fed@ + chunk@);
                        self.cur = Ghost(empty_line());
                        return;
                    }
                } else {
                    proof {
                        assert(cur0.len() >= MAX_LINE_LENGTH);
                        assert forall|ext: Seq<u8>|
                            run_lines(
                                init_state(),
                                #[trigger] terminated_lines(fed1 + ext),
                                now,
                                off,
                                cap,
                            ) == run_lines(
                                self.parser@,
                                lines_acc(fed1 + ext, fed1.len() as int, seq![]),
                                now,
                                off,
                                cap,
                            ) by {
                            let rest = lines_acc(fed1 + ext, fed0.len() as int + 1, seq![]);
                            let ls = seq![cur0] + rest;
                            assert(ls[0] == cur0 && ls.len() > 0);
                            assert(ls.drop_first() =~= rest);
                        }
                    }
                }
                self.line.clear();
                self.fed = Ghost(fed1);
                self.cur = Ghost(empty_line());
            } else if b == 13 {
                proof {
                    lemma_feed_plain_byte(self.parser@, fed0, cur0, 13u8, now, off, cap);
                }
                self.fed = Ghost(fed0.push(13u8));
            } else {
                if self.line.len() < MAX_LINE_LENGTH {
                    self.line.push(b);
                }
                proof {
                    lemma_feed_plain_byte(self.parser@, fed0, cur0, b, now, off, cap);
                    let cur1 = cur0.push(b);
                    if cur0.len() < MAX_LINE_LENGTH {
                        assert(self.line@ == cur1);
                    } else if cur0.len() == MAX_LINE_LENGTH {
                        assert(cur1.take(MAX_LINE_LENGTH as int) =~= cur0);
                    } else {
                        assert(cur1.take(MAX_LINE_LENGTH as int) =~= cur0.take(
                            MAX_LINE_LENGTH as int,
                        ));
                    }
                }
                self.fed = Ghost(fed0.push(b));
                self.cur = Ghost(cur0.push(b));
            }
            i = i + 1;
        }
        proof {
            assert(old(self).fed@ + chunk@.take(n as int) =~= old(self).fed@ + chunk@);
        }
    }

    /// End of stream: whatever has been collected so far is the result —
    /// exactly what the line model assigns to all bytes fed — unless a line
    /// failed to decode.
    pub fn finish(self) -> (r: Result<Vec<Event>, Error>)
        requires
            self.inv(),
        ensures
            match r {
                Ok(evs) => {
                    &&& parse_spec(self.fed@, self.now as int, self.off(), self.max_events as int)
                        == Ok::<Seq<GEvent>, Error>(gevents(evs@))
                    &&& evs@.len() <= self.max_events
                    &&& forall|k: int|
                        0 <= k < evs@.len() ==> (#[trigger] evs@[k]).end >= self.now
                            && evs@[k].summary@.len() <= MAX_SUMMARY_LENGTH
                },
                Err(e) => {
                    &&& parse_spec(self.fed@, self.now as int, self.off(), self.max_events as int)
                        == Err::<Seq<GEvent>, Error>(e)
                    &&& e == Error::ParseEvent
                },
            },
    {
        proof {
            assert(self.fed@ + Seq::<u8>::empty() =~= self.fed@);
            assert(terminated_lines(self.fed@ + Seq::<u8>::empty()) == terminated_lines(
                self.fed@,
            ));
            if !self.failed && !self.parser.done {
                assert(lines_acc(
                    self.fed@ + Seq::<u8>::empty(),
                    self.fed@.len() as int,
                    self.cur@,
                ) =~= Seq::<Seq<u8>>::empty());
            }
        }
        if self.failed {
            Err(Error::ParseEvent)
        } else {
            Ok(self.parser.out)
        }
    }
}

/// Parse a calendar byte stream: collect, in stream order, at most
/// `max_events` events that carry a well-formed start and end and whose end
/// lies at or after `now`, with summaries truncated to
/// [`MAX_SUMMARY_LENGTH`] bytes. The result is exactly what the line model
/// [`parse_spec`] assigns to the input; the only error is a line that is not
/// valid UTF-8.
pub fn parse(input: &[u8], now: i64, timezone: &Tz, max_events: usize) -> (r: Result<
    Vec<Event>,
    Error,
>)
    requires
        timezone.wf(),
    ensures
        match r {
            Ok(evs) => {
                &&& parse_spec(input@, now as int, timezone.offset_sec as int, max_events as int)
                    == Ok::<Seq<GEvent>, Error>(gevents(evs@))
                &&& evs@.len() <= max_events
                &&& forall|k: int|
                    0 <= k < evs@.len() ==> (#[trigger] evs@[k]).end >= now
                        && evs@[k].summary@.len() <= MAX_SUMMARY_LENGTH
            },
            Err(e) => {
                &&& parse_spec(input@, now as int, timezone.offset_sec as int, max_events as int)
                    == Err::<Seq<GEvent>, Error>(e)
                &&& e == Error::ParseEvent
            },
        },
{
    let mut scanner = StreamParser::new(now, *timezone, max_events);
    scanner.push_bytes(input);
    proof {
        assert(Seq::<u8>::empty() + input@ =~= input@);
    }
    scanner.finish()
}

/// A line longer than the line bound is discarded without corrupting the
/// parse of events before or after it: scanning any sequence of lines with
/// an oversized line spliced in yields exactly what scanning the sequence
/// without it yields.
pub proof fn lemma_oversized_line_ignored(
    st: PState,
    ls1: Seq<Seq<u8>>,
    l: Seq<u8>,
    ls2: Seq<Seq<u8>>,
    now: int,
    off: int,
    cap: int,
)
    requires
        l.len() >= MAX_LINE_LENGTH,
    ensures
        run_lines(st, ls1 + seq![l] + ls2, now, off, cap) == run_lines(
            st,
            ls1 + ls2,
            now,
            off,
            cap,
        ),
    decreases ls1.len(),
{
    let lhs = ls1 + seq![l] + ls2;
    let rhs = ls1 + ls2;
    if st.done {
    } else if ls1.len() == 0 {
        assert(lhs =~= seq![l] + ls2);
        assert(lhs[0] == l);
        assert(lhs.drop_first() =~= ls2);
        assert(rhs =~= ls2);
    } else {
        let h = ls1[0];
        assert(lhs[0] == h);
        assert(rhs[0] == h);
        assert(lhs.len() > 0 && rhs.len() > 0);
        assert(lhs.drop_first() =~= ls1.drop_first() + seq![l] + ls2);
        assert(rhs.drop_first() =~= ls1.drop_first() + ls2);
        if h.len() >= MAX_LINE_LENGTH {
            lemma_oversized_line_ignored(st, ls1.drop_first(), l, ls2, now, off, cap);
        } else if !is_utf8(h) {
        } else {
            lemma_oversized_line_ignored(
                step_line(st, h, now, off, cap),
                ls1.drop_first(),
                l,
                ls2,
                now,
                off,
                cap,
            );
        }
    }
}

/// Fold [`step_line`] over a sequence of lines, with no stopping and no
/// length or UTF-8 checks: what scanning a run of plain lines does.
pub open spec fn step_mid(st: PState, ls: Seq<Seq<u8>>, now: int, off: int, cap: int) -> PState
    decreases ls.len(),
{
    if ls.len() == 0 {
        st
    } else {
        step_mid(step_line(st, ls[0], now, off, cap), ls.drop_first(), now, off, cap)
    }
}

/// A line that, met inside an event, discards the event: a `DTSTART` or
/// `DTEND` property without a colon or with a malformed timestamp, or a
/// `DTEND` whose instant lies before `now`.
pub open spec fn line_discards(l: Seq<u8>, now: int, off: int) -> bool {
    &&& (starts_with(l, kw_dtend()) || starts_with(l, kw_dtstart()))
    &&& match first_colon(l, 0) {
        Option::None => true,
        Option::Some(c) => match ts_instant(l.skip(c + 1), off) {
            Option::None => true,
            Option::Some(v) => starts_with(l, kw_dtend()) && v < now,
        },
    }
}

/// Lines that are processed as they stand: short enough and valid UTF-8.
pub open spec fn plain_lines(ls: Seq<Seq<u8>>) -> bool {
    forall|i: int|
        0 <= i < ls.len() ==> (#[trigger] ls[i]).len() < MAX_LINE_LENGTH && is_utf8(ls[i])
}

/// No line of `ls` opens or closes an event.
pub open spec fn no_markers(ls: Seq<Seq<u8>>) -> bool {
    forall|i: int|
        0 <= i < ls.len() ==> !starts_with(#[trigger] ls[i], kw_begin()) && !starts_with(
            ls[i],
            kw_end(),
        )
}

/// Scanning plain lines without `END:VEVENT` just folds the step function:
/// the run continues on the remaining lines from the folded state, which has
/// the same output and is still running.
pub proof fn lemma_run_steps(
    st: PState,
    ls: Seq<Seq<u8>>,
    tail: Seq<Seq<u8>>,
    now: int,
    off: int,
    cap: int,
)
    requires
        !st.done,
        plain_lines(ls),
        forall|i: int| 0 <= i < ls.len() ==> !starts_with(#[trigger] ls[i], kw_end()),
    ensures
        run_lines(st, ls + tail, now, off, cap) == run_lines(
            step_mid(st, ls, now, off, cap),
            tail,
            now,
            off,
            cap,
        ),
        !step_mid(st, ls, now, off, cap).done,
        step_mid(st, ls, now, off, cap).out == st.out,
    decreases ls.len(),
{
    if ls.len() == 0 {
        assert(ls + tail =~= tail);
    } else {
        let h = ls[0];
        let lhs = ls + tail;
        assert(lhs[0] == h);
        assert(lhs.len() > 0);
        assert(lhs.drop_first() =~= ls.drop_first() + tail);
        let st1 = step_line(st, h, now, off, cap);
        assert(!st1.done && st1.out == st.out);
        lemma_run_steps(st1, ls.drop_first(), tail, now, off, cap);
    }
}

/// While scanning for an event, lines that are no markers leave the scanner
/// exactly as it is.
pub proof fn lemma_scanning_absorbs(
    st: PState,
    ls: Seq<Seq<u8>>,
    now: int,
    off: int,
    cap: int,
)
    requires
        st.scanning,
        no_markers(ls),
    ensures
        step_mid(st, ls, now, off, cap) == st,
    decreases ls.len(),
{
    if ls.len() > 0 {
        assert(step_line(st, ls[0], now, off, cap) == st);
        lemma_scanning_absorbs(st, ls.drop_first(), now, off, cap);
    }
}

/// Inside an event, a run of marker-free lines holding a discarding
/// property line leaves the scanner back in the scanning state.
pub proof fn lemma_mid_discard(st: PState, ls: Seq<Seq<u8>>, now: int, off: int, cap: int)
    requires
        !st.scanning,
        no_markers(ls),
        exists|i: int| 0 <= i < ls.len() && line_discards(#[trigger] ls[i], now, off),
    ensures
        step_mid(st, ls, now, off, cap).scanning,
    decreases ls.len(),
{
    let h = ls[0];
    let st1 = step_line(st, h, now, off, cap);
    if line_discards(h, now, off) {
        assert(st1.scanning);
        lemma_scanning_absorbs(st1, ls.drop_first(), now, off, cap);
    } else {
        assert(!st1.scanning);
        let i = choose|i: int| 0 <= i < ls.len() && line_discards(#[trigger] ls[i], now, off);
        assert(i != 0);
        assert(0 <= i - 1 < ls.drop_first().len() && line_discards(
            ls.drop_first()[i - 1],
            now,
            off,
        ));
        lemma_mid_discard(st1, ls.drop_first(), now, off, cap);
    }
}

/// A `VEVENT` whose `DTSTART` or `DTEND` fails to parse — or whose `DTEND`
/// lies in the past — is entirely absent from the output: the whole block
/// contributes no event, and the scanner resumes cleanly, ready for the
/// next `BEGIN:VEVENT`.
pub proof fn lemma_malformed_event_absent(
    st: PState,
    bline: Seq<u8>,
    mid: Seq<Seq<u8>>,
    eline: Seq<u8>,
    rest: Seq<Seq<u8>>,
    now: int,
    off: int,
    cap: int,
)
    requires
        !st.done,
        starts_with(bline, kw_begin()),
        bline.len() < MAX_LINE_LENGTH,
        is_utf8(bline),
        starts_with(eline, kw_end()),
        eline.len() < MAX_LINE_LENGTH,
        is_utf8(eline),
        plain_lines(mid),
        no_markers(mid),
        exists|i: int| 0 <= i < mid.len() && line_discards(#[trigger] mid[i], now, off),
    ensures
        run_lines(st, seq![bline] + mid + seq![eline] + rest, now, off, cap) == run_lines(
            PState {
                scanning: true,
                acc: empty_acc(),
                out: st.out,
                done: st.out.len() >= cap,
            },
            rest,
            now,
            off,
            cap,
        ),
{
    let all = seq![bline] + mid + seq![eline] + rest;
    let st1 = step_line(st, bline, now, off, cap);
    assert(st1 == PState { scanning: false, acc: empty_acc(), ..st });
    assert(all[0] == bline);
    assert(all.len() > 0);
    assert(all.drop_first() =~= mid + (seq![eline] + rest));
    let st2 = step_mid(st1, mid, now, off, cap);
    lemma_run_steps(st1, mid, seq![eline] + rest, now, off, cap);
    lemma_mid_discard(st1, mid, now, off, cap);
    let e_tail = seq![eline] + rest;
    assert(e_tail[0] == eline);
    assert(e_tail.len() > 0);
    assert(e_tail.drop_first() =~= rest);
    let st3 = step_line(st2, eline, now, off, cap);
    assert(!starts_with(eline, kw_begin())) by {
        assert(eline[0] == 69int as u8 && kw_begin()[0] == 66);
    }
    assert(st3 =~= PState {
        scanning: true,
        acc: empty_acc(),
        out: st.out,
        done: st.out.len() >= cap,
    });
}

/// Non-decreasing by start instant.
pub open spec fn sorted_by_start(s: Seq<GEvent>) -> bool {
    forall|i: int, j: int| 0 <= i <= j < s.len() ==> s[i].start <= s[j].start
}

/// Sorts events by start date in ascending order. The result is a
/// permutation of the input; the order of events with equal starts is
/// unspecified.
pub fn sort_by_date(events: &mut Vec<Event>)
    ensures
        final(events)@.len() == old(events)@.len(),
        sorted_by_start(gevents(final(events)@)),
        gevents(final(events)@).to_multiset() == gevents(old(events)@).to_multiset(),
{
    broadcast use vstd::seq_lib::group_to_multiset_ensures;

    let ghost orig = gevents(events@);
    let mut out: Vec<Event> = Vec::new();
    proof {
        assert(gevents(out@).to_multiset().add(gevents(events@).to_multiset())
            =~= orig.to_multiset());
    }
    while events.len() > 0
        invariant
            out@.len() + events@.len() == orig.len(),
            sorted_by_start(gevents(out@)),
            forall|a: int, b: int|
                0 <= a < out@.len() && 0 <= b < events@.len() ==> gevents(out@)[a].start <= gevents(
                    events@,
                )[b].start,
            gevents(out@).to_multiset().add(gevents(events@).to_multiset()) == orig.to_multiset(),
        decreases events@.len(),
    {
        let mut m: usize = 0;
        let mut k: usize = 1;
        while k < events.len()
            invariant
                0 <= m < k <= events@.len(),
                events@.len() > 0,
                forall|t: int| 0 <= t < k ==> events@[m as int].start <= (#[trigger] events@[t]).start,
            decreases events@.len() - k,
        {
            if events[k].start < events[m].start {
                m = k;
            }
            k = k + 1;
        }
        let ghost before = events@;
        let x = events.remove(m);
        let ghost g = x@;
        proof {
            gevents(before).to_multiset_ensures();
            gevents(out@).to_multiset_ensures();
            assert(gevents(before)[m as int] == g);
            assert(gevents(before.remove(m as int)) =~= gevents(before).remove(m as int));
            assert(gevents(before).remove(m as int).to_multiset() =~= gevents(
                before,
            ).to_multiset().remove(g));
            assert(gevents(out@.push(x)) =~= gevents(out@).push(g));
            assert(gevents(before).to_multiset().count(g) >= 1) by {
                assert(gevents(before).contains(g));
            }
            assert(gevents(out@).push(g).to_multiset().add(
                gevents(before).to_multiset().remove(g),
            ) =~= gevents(out@).to_multiset().add(gevents(before).to_multiset()));
        }
        out.push(x);
        proof {
            assert(forall|b: int|
                0 <= b < events@.len() ==> g.start <= (#[trigger] gevents(events@)[b]).start) by {
                assert(forall|b: int|
                    0 <= b < events@.len() ==> (#[trigger] events@[b]) == (if b < m {
                        before[b]
                    } else {
                        before[b + 1]
                    }));
            }
        }
    }
    *events = out;
}

} // verus!
