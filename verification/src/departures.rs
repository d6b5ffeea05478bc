//! The S-Bahn departure board: planned timetable documents merged with the
//! live changes feed of the DB Timetables API, filtered, de-duplicated,
//! sorted by effective departure time and cut to the board's size.

use vstd::prelude::*;
use crate::dates::{db_date, db_date_text, db_hour, db_hour_text, tm_fits, Tm};
use crate::dates::tdiv;
use crate::draw::{draw_panel, emit, fits, fits64, ops_view, panel_can_draw, panel_fits, panel_ops, truncate, truncated, DrawOp, Font, HAlign, Ink, OpView, VAlign};
use crate::geometry::{inner_rect, Rect};
use crate::text::{owned, push_str, slice_of, str_chars, str_get, byte_len, str_less, str_lt, lemma_str_lt_order};
use crate::xml::{
    attr, find_attr, find_open_tag, last_stop, last_stop_of, open_tag, remove_ws, s_blocks,
    strip_ws, trip_ranges, range_view, copy_range, block_ranges,
};

verus! {

/// Rows shown on the board.
pub const MAX_ROWS: usize = 6;

/// `HH:MM` from a DB timestamp `YYMMDDHHMM` (bytes 6..8 and 8..10), or
/// `--:--` when it is shorter than ten bytes.
pub open spec fn hhmm_db_of(stamp: Seq<char>) -> Seq<char> {
    if byte_len(stamp) >= 10 {
        slice_of(stamp, 6, 8).unwrap() + ":"@ + slice_of(stamp, 8, 10).unwrap()
    } else {
        "--:--"@
    }
}

/// Cutting `HH` and `MM` out of the stamp does not split a character.
pub open spec fn hhmm_db_ok(stamp: Seq<char>) -> bool {
    byte_len(stamp) < 10 || (slice_of(stamp, 6, 8) is Some && slice_of(stamp, 8, 10) is Some)
}

/// `HH:MM` from a DB timestamp `YYMMDDHHMM` (e.g. `2608201632` -> `16:32`).
pub fn hhmm_db(stamp: &str) -> (r: String)
    requires
        hhmm_db_ok(stamp@),
    ensures
        r@ == hhmm_db_of(stamp@),
{
    let mut r = String::new();
    if stamp.as_bytes().len() >= 10 {
        let hh = str_get(stamp, 6, 8).unwrap();
        let mm = str_get(stamp, 8, 10).unwrap();
        push_str(&mut r, hh);
        push_str(&mut r, ":");
        push_str(&mut r, mm);
    } else {
        push_str(&mut r, "--:--");
    }
    assert(r@ =~= hhmm_db_of(stamp@));
    r
}

/// The trip id of a `<s>` element.
pub open spec fn trip_id(b: Seq<char>) -> Option<Seq<char>> {
    match open_tag(b, "<s"@) {
        Some(t) => attr(t, "id"@),
        None => None,
    }
}

/// One entry of the changes feed: trip id, changed departure time (if any)
/// and whether the departure is cancelled.
pub open spec fn change_entries(bs: Seq<Seq<char>>) -> Seq<(Seq<char>, Option<Seq<char>>, bool)>
    decreases bs.len(),
{
    if bs.len() == 0 {
        seq![]
    } else {
        let prev = change_entries(bs.drop_last());
        let b = bs.last();
        match trip_id(b) {
            Some(id) => match open_tag(b, "<dp"@) {
                Some(dp) => prev.push((id, attr(dp, "ct"@), attr(dp, "cs"@) == Some("c"@))),
                None => prev,
            },
            None => prev,
        }
    }
}

/// The change recorded last for `id` (a later entry replaces an earlier
/// one); no change and not cancelled when there is none.
pub open spec fn change_for(es: Seq<(Seq<char>, Option<Seq<char>>, bool)>, id: Seq<char>) -> (
    Option<Seq<char>>,
    bool,
)
    decreases es.len(),
{
    if es.len() == 0 {
        (None, false)
    } else if es.last().0 == id {
        (es.last().1, es.last().2)
    } else {
        change_for(es.drop_last(), id)
    }
}

/// The trip elements of several documents, in order.
pub open spec fn plan_blocks(plans: Seq<Seq<char>>) -> Seq<Seq<char>>
    decreases plans.len(),
{
    if plans.len() == 0 {
        seq![]
    } else {
        plan_blocks(plans.drop_last()) + s_blocks(plans.last())
    }
}

/// A departure as read from a planned trip element, before formatting.
pub struct Departure {
    pub id: Seq<char>,
    pub line: Seq<char>,
    pub dest: Seq<char>,
    pub planned: Seq<char>,
    pub changed: Option<Seq<char>>,
    pub effective: Seq<char>,
    pub cancelled: bool,
}

/// The departure of a planned trip element with the changes applied, when it
/// has an id, a departure (`<dp>`) with a planned time, and does not leave
/// before `now`.
pub open spec fn departure_of(b: Seq<char>, es: Seq<(Seq<char>, Option<Seq<char>>, bool)>, now: Seq<char>) -> Option<Departure> {
    match trip_id(b) {
        None => None,
        Some(id) => match open_tag(b, "<dp"@) {
            None => None,
            Some(dp) => match attr(dp, "pt"@) {
                None => None,
                Some(pt) => {
                    let (ct, cancelled) = change_for(es, id);
                    let eff = match ct {
                        Some(c) => c,
                        None => pt,
                    };
                    if str_lt(eff, now) {
                        None
                    } else {
                        Some(Departure {
                            id,
                            line: strip_ws(match attr(dp, "l"@) { Some(l) => l, None => ""@ }),
                            dest: last_stop_of(match attr(dp, "ppth"@) { Some(p) => p, None => ""@ }),
                            planned: pt,
                            changed: ct,
                            effective: eff,
                            cancelled,
                        })
                    }
                },
            },
        },
    }
}

/// Some departure in `ds` belongs to trip `id`.
pub open spec fn has_trip(ds: Seq<Departure>, id: Seq<char>) -> bool {
    exists|i: int| 0 <= i < ds.len() && (#[trigger] ds[i]).id == id
}

/// The departures of the planned trip elements `bs`, in order, keeping only
/// the first one of each trip.
pub open spec fn departures(bs: Seq<Seq<char>>, es: Seq<(Seq<char>, Option<Seq<char>>, bool)>, now: Seq<char>) -> Seq<Departure>
    decreases bs.len(),
{
    if bs.len() == 0 {
        seq![]
    } else {
        let prev = departures(bs.drop_last(), es, now);
        match departure_of(bs.last(), es, now) {
            Some(d) => if has_trip(prev, d.id) {
                prev
            } else {
                prev.push(d)
            },
            None => prev,
        }
    }
}

/// What one board row shows.
pub struct RowView {
    pub line: Seq<char>,
    pub dest: Seq<char>,
    pub planned: Seq<char>,
    pub actual: Seq<char>,
    pub delayed: bool,
    pub cancelled: bool,
    pub sort_key: Seq<char>,
}

/// The board row of a departure.
pub open spec fn row_of(d: Departure) -> RowView {
    RowView {
        line: if d.line.len() == 0 { "?"@ } else { d.line },
        dest: if d.dest.len() == 0 { "-"@ } else { d.dest },
        planned: hhmm_db_of(d.planned),
        actual: hhmm_db_of(d.effective),
        delayed: !d.cancelled && match d.changed {
            Some(c) => c != d.planned,
            None => false,
        },
        cancelled: d.cancelled,
        sort_key: d.effective,
    }
}

/// Inserts `r` into `s` after every row whose key is not greater than its own
/// (a stable insertion).
pub open spec fn insert_row(s: Seq<RowView>, r: RowView) -> Seq<RowView>
    decreases s.len(),
{
    if s.len() == 0 {
        seq![r]
    } else if str_lt(r.sort_key, s.last().sort_key) {
        insert_row(s.drop_last(), r).push(s.last())
    } else {
        s.push(r)
    }
}

/// The rows of `ds` stably sorted by effective departure time.
pub open spec fn sorted_rows(ds: Seq<Departure>) -> Seq<RowView>
    decreases ds.len(),
{
    if ds.len() == 0 {
        seq![]
    } else {
        insert_row(sorted_rows(ds.drop_last()), row_of(ds.last()))
    }
}

/// Every departure kept from the plans has stamps that can be cut into
/// `HH:MM` without splitting a character.
pub open spec fn stamps_ok(plans: Seq<Seq<char>>, changes: Seq<char>, now: Seq<char>) -> bool {
    let ds = departures(plan_blocks(plans), change_entries(s_blocks(changes)), now);
    forall|i: int| 0 <= i < ds.len() ==> hhmm_db_ok((#[trigger] ds[i]).planned) && hhmm_db_ok(ds[i].effective)
}

/// The board: the next departures at or after `now`, earliest first, at most
/// `MAX_ROWS` of them.
pub open spec fn board(plans: Seq<Seq<char>>, changes: Seq<char>, now: Seq<char>) -> Seq<RowView> {
    let rows = sorted_rows(departures(plan_blocks(plans), change_entries(s_blocks(changes)), now));
    if rows.len() > MAX_ROWS {
        rows.take(MAX_ROWS as int)
    } else {
        rows
    }
}


/// DB Timetables API access: base URL, station EVA number and credentials.
pub struct DbConfig {
    pub base: String,
    pub eva: String,
    pub client_id: String,
    pub api_key: String,
}

/// A departure row ready for rendering, DB-board style.
pub struct Row {
    pub line: String,
    pub dest: String,
    pub planned: String,
    pub actual: String,
    pub delayed: bool,
    pub cancelled: bool,
    /// Effective departure timestamp (`YYMMDDHHMM`), used to sort and filter.
    pub sort_key: String,
}

impl View for Row {
    type V = RowView;

    open spec fn view(&self) -> RowView {
        RowView {
            line: self.line@,
            dest: self.dest@,
            planned: self.planned@,
            actual: self.actual@,
            delayed: self.delayed,
            cancelled: self.cancelled,
            sort_key: self.sort_key@,
        }
    }
}

/// The views of a list of rows.
pub open spec fn rows_view(rows: Seq<Row>) -> Seq<RowView> {
    rows.map_values(|r: Row| r@)
}

struct ChangeEntry {
    id: Vec<char>,
    ct: Option<Vec<char>>,
    cancelled: bool,
}

spec fn opt_chars(o: Option<Vec<char>>) -> Option<Seq<char>> {
    match o {
        Some(v) => Some(v@),
        None => None,
    }
}

spec fn entries_view(es: Seq<ChangeEntry>) -> Seq<(Seq<char>, Option<Seq<char>>, bool)> {
    es.map_values(|e: ChangeEntry| (e.id@, opt_chars(e.ct), e.cancelled))
}

fn chars_eq(a: &Vec<char>, b: &Vec<char>) -> (r: bool)
    ensures
        r == (a@ == b@),
{
    if a.len() != b.len() {
        return false;
    }
    let mut i: usize = 0;
    while i < a.len()
        invariant
            a.len() == b.len(),
            i <= a.len(),
            forall|j: int| 0 <= j < i ==> a@[j] == b@[j],
        decreases a.len() - i,
    {
        if a[i] != b[i] {
            return false;
        }
        i = i + 1;
    }
    assert(a@ =~= b@);
    true
}

fn copy_all(v: &Vec<char>) -> (r: Vec<char>)
    ensures
        r@ == v@,
{
    let r = copy_range(v, 0, v.len());
    assert(v@.subrange(0, v.len() as int) =~= v@);
    r
}

fn block_trip_id(b: &Vec<char>) -> (r: Option<Vec<char>>)
    ensures
        opt_chars(r) == trip_id(b@),
{
    proof {
        reveal_strlit("<s");
    }
    match find_open_tag(b, "<s") {
        Some(t) => find_attr(&t, "id"),
        None => None,
    }
}

fn block_dp(b: &Vec<char>) -> (r: Option<Vec<char>>)
    ensures
        opt_chars(r) == open_tag(b@, "<dp"@),
{
    proof {
        reveal_strlit("<dp");
    }
    find_open_tag(b, "<dp")
}

/// Delays and cancellations of the changes feed, in document order.
fn collect_changes(x: &Vec<char>) -> (r: Vec<ChangeEntry>)
    ensures
        entries_view(r@) == change_entries(s_blocks(x@)),
{
    let ranges = trip_ranges(x);
    let ghost bs = s_blocks(x@);
    assert(bs.len() == ranges.len());
    let mut es: Vec<ChangeEntry> = Vec::new();
    let mut i: usize = 0;
    while i < ranges.len()
        invariant
            i <= ranges.len(),
            bs == s_blocks(x@),
            bs.len() == ranges.len(),
            range_view(ranges@) == block_ranges(x@, 0),
            forall|k: int| 0 <= k < ranges.len() ==> (#[trigger] ranges@[k]).0 <= ranges@[k].1 <= x.len(),
            entries_view(es@) == change_entries(bs.take(i as int)),
        decreases ranges.len() - i,
    {
        let (lo, hi) = ranges[i];
        let b = copy_range(x, lo, hi);
        assert(range_view(ranges@)[i as int] == (lo as int, hi as int));
        assert(b@ == bs[i as int]);
        assert(bs.take(i + 1).drop_last() =~= bs.take(i as int));
        assert(bs.take(i + 1).last() == bs[i as int]);
        let ghost prev = es@;
        match block_trip_id(&b) {
            Some(id) => match block_dp(&b) {
                Some(dp) => {
                    let ct = find_attr(&dp, "ct");
                    let cs = find_attr(&dp, "cs");
                    let c = str_chars("c");
                    let cancelled = match cs {
                        Some(v) => chars_eq(&v, &c),
                        None => false,
                    };
                    es.push(ChangeEntry { id, ct, cancelled });
                    assert(entries_view(es@) =~= entries_view(prev).push(
                        (es@.last().id@, opt_chars(es@.last().ct), es@.last().cancelled),
                    ));
                },
                None => {},
            },
            None => {},
        }
        i = i + 1;
    }
    assert(bs.take(ranges.len() as int) =~= bs);
    es
}

fn lookup_change(es: &Vec<ChangeEntry>, id: &Vec<char>) -> (r: (Option<Vec<char>>, bool))
    ensures
        (opt_chars(r.0), r.1) == change_for(entries_view(es@), id@),
{
    let ghost ev = entries_view(es@);
    let mut i = es.len();
    assert(ev.take(i as int) =~= ev);
    while i > 0
        invariant
            i <= es.len(),
            ev == entries_view(es@),
            change_for(ev, id@) == change_for(ev.take(i as int), id@),
        decreases i,
    {
        let ghost t = ev.take(i as int);
        assert(t.drop_last() =~= ev.take(i - 1));
        assert(t.last() == ev[i - 1]);
        if chars_eq(&es[i - 1].id, id) {
            let ct = match &es[i - 1].ct {
                Some(v) => Some(copy_all(v)),
                None => None,
            };
            return (ct, es[i - 1].cancelled);
        }
        i = i - 1;
    }
    (None, false)
}

struct Candidate {
    id: Vec<char>,
    line: Vec<char>,
    dest: Vec<char>,
    planned: Vec<char>,
    changed: Option<Vec<char>>,
    effective: String,
    cancelled: bool,
}

spec fn candidate_view(c: Candidate) -> Departure {
    Departure {
        id: c.id@,
        line: c.line@,
        dest: c.dest@,
        planned: c.planned@,
        changed: opt_chars(c.changed),
        effective: c.effective@,
        cancelled: c.cancelled,
    }
}

fn departure_candidate(b: &Vec<char>, es: &Vec<ChangeEntry>, now: &str) -> (r: Option<Candidate>)
    ensures
        match r {
            Some(c) => departure_of(b@, entries_view(es@), now@) == Some(candidate_view(c)),
            None => departure_of(b@, entries_view(es@), now@) is None,
        },
{
    let id = match block_trip_id(b) {
        Some(v) => v,
        None => return None,
    };
    let dp = match block_dp(b) {
        Some(v) => v,
        None => return None,
    };
    let pt = match find_attr(&dp, "pt") {
        Some(v) => v,
        None => return None,
    };
    let (ct, cancelled) = lookup_change(es, &id);
    let eff_chars = match &ct {
        Some(c) => copy_all(c),
        None => copy_all(&pt),
    };
    let effective = crate::text::string_of(&eff_chars, 0, eff_chars.len());
    assert(eff_chars@.subrange(0, eff_chars.len() as int) =~= eff_chars@);
    if str_less(effective.as_str(), now) {
        return None;
    }
    let line = match find_attr(&dp, "l") {
        Some(v) => remove_ws(&v),
        None => {
            let e: Vec<char> = Vec::new();
            proof {
                reveal_strlit("");
                assert(strip_ws(""@) =~= e@);
            }
            e
        },
    };
    let dest = match find_attr(&dp, "ppth") {
        Some(v) => last_stop(&v),
        None => {
            let e: Vec<char> = Vec::new();
            proof {
                reveal_strlit("");
                assert(last_stop_of(""@) =~= e@) by {
                    reveal_with_fuel(crate::xml::trim_start, 1);
                    reveal_with_fuel(crate::xml::trim_end, 1);
                }
            }
            e
        },
    };
    let c = Candidate { id, line, dest, planned: pt, changed: ct, effective, cancelled };
    Some(c)
}

/// Some id in `kept` equals `id`.
fn contains_id(kept: &Vec<Vec<char>>, id: &Vec<char>) -> (r: bool)
    ensures
        r == exists|i: int| 0 <= i < kept.len() && (#[trigger] kept@[i])@ == id@,
{
    let mut i: usize = 0;
    while i < kept.len()
        invariant
            i <= kept.len(),
            forall|j: int| 0 <= j < i ==> (#[trigger] kept@[j])@ != id@,
        decreases kept.len() - i,
    {
        if chars_eq(&kept[i], id) {
            return true;
        }
        i = i + 1;
    }
    false
}

fn make_row(c: &Candidate) -> (r: Row)
    requires
        hhmm_db_ok(c.planned@),
        hhmm_db_ok(c.effective@),
    ensures
        r@ == row_of(candidate_view(*c)),
{
    let line = if c.line.len() == 0 {
        let mut s = String::new();
        push_str(&mut s, "?");
        s
    } else {
        crate::text::string_of(&c.line, 0, c.line.len())
    };
    let dest = if c.dest.len() == 0 {
        let mut s = String::new();
        push_str(&mut s, "-");
        s
    } else {
        crate::text::string_of(&c.dest, 0, c.dest.len())
    };
    let pts = crate::text::string_of(&c.planned, 0, c.planned.len());
    assert(c.planned@.subrange(0, c.planned.len() as int) =~= c.planned@);
    assert(c.line@.subrange(0, c.line.len() as int) =~= c.line@);
    assert(c.dest@.subrange(0, c.dest.len() as int) =~= c.dest@);
    let planned = hhmm_db(pts.as_str());
    let actual = hhmm_db(c.effective.as_str());
    let delayed = !c.cancelled && match &c.changed {
        Some(v) => !chars_eq(v, &c.planned),
        None => false,
    };
    let ek = str_chars(c.effective.as_str());
    let sort_key = crate::text::string_of(&ek, 0, ek.len());
    assert(ek@.subrange(0, ek.len() as int) =~= c.effective@);
    Row { line, dest, planned, actual, delayed, cancelled: c.cancelled, sort_key }
}

proof fn lemma_insert_row(s: Seq<RowView>, r: RowView, p: int)
    requires
        0 <= p <= s.len(),
        forall|j: int| p <= j < s.len() ==> str_lt(r.sort_key, (#[trigger] s[j]).sort_key),
        p == 0 || !str_lt(r.sort_key, s[p - 1].sort_key),
    ensures
        insert_row(s, r) == s.insert(p, r),
    decreases s.len(),
{
    if s.len() == p {
        if p == 0 {
            assert(s.insert(0, r) =~= seq![r]);
        } else {
            assert(s.insert(p, r) =~= s.push(r));
        }
    } else {
        let t = s.drop_last();
        assert forall|j: int| p <= j < t.len() implies str_lt(r.sort_key, (#[trigger] t[j]).sort_key) by {
            assert(t[j] == s[j]);
        }
        if p > 0 {
            assert(t[p - 1] == s[p - 1]);
        }
        assert(str_lt(r.sort_key, s[s.len() - 1].sort_key));
        lemma_insert_row(t, r, p);
        assert(t.insert(p, r).push(s.last()) =~= s.insert(p, r));
    }
}

/// Stable insertion of `r` by its sort key.
fn insert_sorted(rows: &mut Vec<Row>, r: Row)
    ensures
        rows_view(final(rows)@) == insert_row(rows_view(old(rows)@), r@),
{
    let ghost sv = rows_view(rows@);
    let mut p = rows.len();
    while p > 0 && str_less(r.sort_key.as_str(), rows[p - 1].sort_key.as_str())
        invariant
            p <= rows.len(),
            sv == rows_view(rows@),
            sv.len() == rows.len(),
            forall|j: int| p <= j < sv.len() ==> str_lt(r@.sort_key, (#[trigger] sv[j]).sort_key),
        decreases p,
    {
        assert(sv[p - 1] == rows@[p - 1]@);
        p = p - 1;
    }
    proof {
        if p > 0 {
            assert(sv[p - 1] == rows@[p - 1]@);
        }
        lemma_insert_row(sv, r@, p as int);
    }
    rows.insert(p, r);
    assert(rows_view(rows@) =~= sv.insert(p as int, r@));
}


/// `a` is a prefix of `b`.
pub open spec fn is_prefix<T>(a: Seq<T>, b: Seq<T>) -> bool {
    a.len() <= b.len() && forall|i: int| 0 <= i < a.len() ==> a[i] == b[i]
}

proof fn lemma_plan_blocks_prefix(plans: Seq<Seq<char>>, m: int)
    requires
        0 <= m <= plans.len(),
    ensures
        is_prefix(plan_blocks(plans.take(m)), plan_blocks(plans)),
    decreases plans.len(),
{
    if m == plans.len() {
        assert(plans.take(m) =~= plans);
    } else {
        let p = plans.drop_last();
        assert(p.take(m) =~= plans.take(m));
        lemma_plan_blocks_prefix(p, m);
    }
}

proof fn lemma_departures_prefix(bs: Seq<Seq<char>>, k: int, es: Seq<(Seq<char>, Option<Seq<char>>, bool)>, now: Seq<char>)
    requires
        0 <= k <= bs.len(),
    ensures
        is_prefix(departures(bs.take(k), es, now), departures(bs, es, now)),
    decreases bs.len(),
{
    if k == bs.len() {
        assert(bs.take(k) =~= bs);
    } else {
        let p = bs.drop_last();
        assert(p.take(k) =~= bs.take(k));
        lemma_departures_prefix(p, k, es, now);
    }
}

/// The board's status line when it shows no rows.
pub open spec fn empty_status(rows: Seq<RowView>) -> Option<Seq<char>> {
    if rows.len() == 0 {
        Some("No departures"@)
    } else {
        None
    }
}

/// The fingerprint of one row: `line|dest|planned|actual|DC;` with the
/// delayed and cancelled flags as `0`/`1`.
pub open spec fn row_signature(r: RowView) -> Seq<char> {
    r.line + "|"@ + r.dest + "|"@ + r.planned + "|"@ + r.actual + "|"@ + (if r.delayed {
        "1"@
    } else {
        "0"@
    }) + (if r.cancelled {
        "1"@
    } else {
        "0"@
    }) + ";"@
}

/// The fingerprint of a board: `!status` when a status line is shown,
/// otherwise the rows' fingerprints one after another.
pub open spec fn board_signature(rows: Seq<RowView>, status: Option<Seq<char>>) -> Seq<char>
    decreases rows.len(),
{
    match status {
        Some(s) => "!"@ + s,
        None => if rows.len() == 0 {
            seq![]
        } else {
            board_signature(rows.drop_last(), None) + row_signature(rows.last())
        },
    }
}

/// The contents of a list of timetable documents.
pub open spec fn docs_view(plans: Seq<&str>) -> Seq<Seq<char>> {
    plans.map_values(|p: &str| p@)
}

fn push_row_signature(r: &mut String, row: &Row)
    ensures
        final(r)@ == old(r)@ + row_signature(row@),
{
    push_str(r, row.line.as_str());
    push_str(r, "|");
    push_str(r, row.dest.as_str());
    push_str(r, "|");
    push_str(r, row.planned.as_str());
    push_str(r, "|");
    push_str(r, row.actual.as_str());
    push_str(r, "|");
    push_str(r, if row.delayed { "1" } else { "0" });
    push_str(r, if row.cancelled { "1" } else { "0" });
    push_str(r, ";");
    assert(r@ =~= old(r)@ + row_signature(row@));
}


/// The departures of the planned documents with the changes applied, in
/// document order, first one per trip.
fn collect_departures(plans: &[&str], changes: &str, now: &str) -> (r: Vec<Candidate>)
    ensures
        cands_view(r@) == departures(plan_blocks(docs_view(plans@)), change_entries(s_blocks(changes@)), now@),
{
        let ghost pv = docs_view(plans@);
        let ghost pb = plan_blocks(pv);
        let cc = str_chars(changes);
        let es = collect_changes(&cc);
        let ghost ev = entries_view(es@);
        let ghost all = departures(pb, ev, now@);
        let mut out: Vec<Candidate> = Vec::new();
        let mut kept: Vec<Vec<char>> = Vec::new();
        let ghost mut cnt: int = 0;
        let mut pi: usize = 0;
        assert(pv.take(0) =~= Seq::<Seq<char>>::empty());
        assert(pb.take(0) =~= Seq::<Seq<char>>::empty());
        while pi < plans.len()
            invariant
                pi <= plans.len(),
                pv == docs_view(plans@),
                pv.len() == plans.len(),
                pb == plan_blocks(pv),
                ev == entries_view(es@),
                ev == change_entries(s_blocks(changes@)),
                all == departures(pb, ev, now@),
                cnt == plan_blocks(pv.take(pi as int)).len(),
                cnt <= pb.len(),
                kept.len() == departures(pb.take(cnt), ev, now@).len(),
                forall|i: int| 0 <= i < kept.len() ==> (#[trigger] kept@[i])@ == departures(pb.take(cnt), ev, now@)[i].id,
                cands_view(out@) == departures(pb.take(cnt), ev, now@),
            decreases plans.len() - pi,
        {
            let doc = plans[pi];
            assert(pv[pi as int] == doc@);
            let pc = str_chars(doc);
            let ranges = trip_ranges(&pc);
            let ghost sb = s_blocks(pc@);
            proof {
                assert(pv.take(pi + 1).drop_last() =~= pv.take(pi as int));
                assert(pv.take(pi + 1).last() == doc@);
                lemma_plan_blocks_prefix(pv, pi + 1);
            }
            let mut bi: usize = 0;
            while bi < ranges.len()
                invariant
                    pi < plans.len(),
                    bi <= ranges.len(),
                    pv == docs_view(plans@),
                    pv.len() == plans.len(),
                    pb == plan_blocks(pv),
                    sb == s_blocks(pc@),
                    sb.len() == ranges.len(),
                    range_view(ranges@) == block_ranges(pc@, 0),
                    forall|k: int| 0 <= k < ranges.len() ==> (#[trigger] ranges@[k]).0 <= ranges@[k].1 <= pc.len(),
                    plan_blocks(pv.take(pi + 1)) == plan_blocks(pv.take(pi as int)) + sb,
                    is_prefix(plan_blocks(pv.take(pi + 1)), pb),
                    ev == entries_view(es@),
                    all == departures(pb, ev, now@),
                        ev == change_entries(s_blocks(changes@)),
                    cnt == plan_blocks(pv.take(pi as int)).len() + bi,
                    cnt <= pb.len(),
                    kept.len() == departures(pb.take(cnt), ev, now@).len(),
                    forall|i: int| 0 <= i < kept.len() ==> (#[trigger] kept@[i])@ == departures(pb.take(cnt), ev, now@)[i].id,
                    cands_view(out@) == departures(pb.take(cnt), ev, now@),
                decreases ranges.len() - bi,
            {
                let (lo, hi) = ranges[bi];
                let b = copy_range(&pc, lo, hi);
                let ghost d0 = departures(pb.take(cnt), ev, now@);
                proof {
                    assert(range_view(ranges@)[bi as int] == (lo as int, hi as int));
                    assert(b@ == sb[bi as int]);
                    assert(plan_blocks(pv.take(pi + 1))[cnt] == sb[bi as int]);
                    assert(pb[cnt] == b@);
                    assert(pb.take(cnt + 1).drop_last() =~= pb.take(cnt));
                    assert(pb.take(cnt + 1).last() == b@);
                    }
                match departure_candidate(&b, &es, now) {
                    Some(c) => {
                        if !contains_id(&kept, &c.id) {
                            proof {
                                assert(!has_trip(d0, c.id@)) by {
                                    if has_trip(d0, c.id@) {
                                        let i = choose|i: int| 0 <= i < d0.len() && (#[trigger] d0[i]).id == c.id@;
                                        assert(kept@[i]@ == c.id@);
                                    }
                                }
                                let d1 = departures(pb.take(cnt + 1), ev, now@);
                                assert(d1 == d0.push(candidate_view(c)));
                            }
                            kept.push(copy_all(&c.id));
                            let ghost cv = candidate_view(c);
                            out.push(c);
                            proof {
                                let d1 = departures(pb.take(cnt + 1), ev, now@);
                                assert(d1.drop_last() =~= d0);
                                assert(cands_view(out@) =~= d0.push(cv));
                            }
                        } else {
                            proof {
                                let i = choose|i: int| 0 <= i < kept.len() && (#[trigger] kept@[i])@ == c.id@;
                                assert(d0[i].id == c.id@);
                                assert(has_trip(d0, c.id@));
                            }
                        }
                    },
                    None => {},
                }
                bi = bi + 1;
                proof {
                    cnt = cnt + 1;
                }
            }
            pi = pi + 1;
        }
        proof {
            assert(pv.take(plans.len() as int) =~= pv);
            assert(pb.take(cnt) =~= pb);
        }
        out
}

spec fn cands_view(cs: Seq<Candidate>) -> Seq<Departure> {
    cs.map_values(|c: Candidate| candidate_view(c))
}

/// Whether every departure kept from the documents has stamps that can be
/// cut into `HH:MM` (what [`DeparturesModule::load`] needs).
pub fn stamps_cuttable(plans: &[&str], changes: &str, now: &str) -> (r: bool)
    ensures
        r == stamps_ok(docs_view(plans@), changes@, now@),
{
    let cands = collect_departures(plans, changes, now);
    let ghost ds = cands_view(cands@);
    let mut i: usize = 0;
    while i < cands.len()
        invariant
            i <= cands.len(),
            ds == cands_view(cands@),
            ds == departures(plan_blocks(docs_view(plans@)), change_entries(s_blocks(changes@)), now@),
            ds.len() == cands.len(),
            forall|k: int| 0 <= k < i ==> hhmm_db_ok((#[trigger] ds[k]).planned) && hhmm_db_ok(ds[k].effective),
        decreases cands.len() - i,
    {
        let c = &cands[i];
        assert(ds[i as int] == candidate_view(*c));
        let pts = crate::text::string_of(&c.planned, 0, c.planned.len());
        assert(c.planned@.subrange(0, c.planned.len() as int) =~= c.planned@);
        if !(stamp_cuttable(pts.as_str()) && stamp_cuttable(c.effective.as_str())) {
            assert(!(hhmm_db_ok(ds[i as int].planned) && hhmm_db_ok(ds[i as int].effective)));
            return false;
        }
        i = i + 1;
    }
    true
}

/// Whether `HH` and `MM` can be cut out of a stamp.
pub fn stamp_cuttable(stamp: &str) -> (r: bool)
    ensures
        r == hhmm_db_ok(stamp@),
{
    stamp.as_bytes().len() < 10 || (str_get(stamp, 6, 8).is_some() && str_get(stamp, 8, 10).is_some())
}

/// Bottom-right block: the next departures for a station, from the DB
/// Timetables API (planned timetable merged with the changes feed).
pub struct DeparturesModule {
    bounds: Rect,
    station_name: &'static str,
    cfg: DbConfig,
    rows: Vec<Row>,
    status: Option<String>,
}

/// What a departures block holds: its place on the panel, the station it
/// shows, its API access, the rows on the board and the status line shown
/// instead of rows.
pub struct DeparturesView {
    pub bounds: Rect,
    pub station_name: Seq<char>,
    pub cfg: DbConfig,
    pub rows: Seq<RowView>,
    pub status: Option<Seq<char>>,
}

impl View for DeparturesModule {
    type V = DeparturesView;

    closed spec fn view(&self) -> DeparturesView {
        DeparturesView {
            bounds: self.bounds,
            station_name: self.station_name@,
            cfg: self.cfg,
            rows: rows_view(self.rows@),
            status: match &self.status {
                Some(s) => Some(s@),
                None => None,
            },
        }
    }
}

impl DeparturesModule {
    /// The rows on the board.
    pub open spec fn board_rows(&self) -> Seq<RowView> {
        self@.rows
    }

    /// The status line shown instead of rows, if any.
    pub open spec fn board_status(&self) -> Option<Seq<char>> {
        self@.status
    }

    /// The block's rectangle on the panel.
    pub fn bounds(&self) -> (r: Rect)
        ensures
            r == self@.bounds,
    {
        self.bounds
    }

    /// The station named in the title.
    pub fn station_name(&self) -> (r: &'static str)
        ensures
            r@ == self@.station_name,
    {
        self.station_name
    }

    pub fn new(bounds: Rect, station_name: &'static str, cfg: DbConfig) -> (r: DeparturesModule)
        ensures
            r@.bounds == bounds,
            r@.station_name == station_name@,
            r@.cfg == cfg,
            r.board_rows() == Seq::<RowView>::empty(),
            r.board_status() == Some("Loading..."@),
    {
        let mut s = String::new();
        push_str(&mut s, "Loading...");
        let r = DeparturesModule { bounds, station_name, cfg, rows: Vec::new(), status: Some(s) };
        assert(r.board_rows() =~= Seq::<RowView>::empty());
        assert(r.board_status() == Some("Loading..."@)) by {
            reveal_strlit("Loading...");
        }
        r
    }

    /// The rows on the board, in display order.
    pub fn rows(&self) -> (r: &Vec<Row>)
        ensures
            rows_view(r@) == self.board_rows(),
    {
        &self.rows
    }

    /// The status line shown instead of rows, if any.
    pub fn status(&self) -> (r: Option<&String>)
        ensures
            match r {
                Some(s) => self.board_status() == Some(s@),
                None => self.board_status() is None,
            },
    {
        match &self.status {
            Some(s) => Some(s),
            None => None,
        }
    }

    /// Build departure rows from one or more planned-timetable documents
    /// (`/plan/...`) merged with the changes feed (`/fchg/...`), keeping only
    /// departures at or after `now` (a `YYMMDDHHMM` timestamp).
    pub fn load(&mut self, plans: &[&str], changes: &str, now: &str) -> (r: Result<(), ()>)
        requires
            stamps_ok(docs_view(plans@), changes@, now@),
        ensures
            r is Ok,
            final(self).board_rows() == board(docs_view(plans@), changes@, now@),
            final(self).board_status() == empty_status(board(docs_view(plans@), changes@, now@)),
            final(self)@.bounds == old(self)@.bounds,
            final(self)@.station_name == old(self)@.station_name,
            final(self)@.cfg == old(self)@.cfg,
    {
        let ghost pv = docs_view(plans@);
        let cands = collect_departures(plans, changes, now);
        let ghost ds = cands_view(cands@);
        let mut sorted: Vec<Row> = Vec::new();
        let mut i: usize = 0;
        assert(ds.take(0) =~= Seq::<Departure>::empty());
        while i < cands.len()
            invariant
                i <= cands.len(),
                ds == cands_view(cands@),
                ds.len() == cands.len(),
                pv == docs_view(plans@),
                ds == departures(plan_blocks(pv), change_entries(s_blocks(changes@)), now@),
                stamps_ok(pv, changes@, now@),
                rows_view(sorted@) == sorted_rows(ds.take(i as int)),
            decreases cands.len() - i,
        {
            assert(ds[i as int] == candidate_view(cands@[i as int]));
            let row = make_row(&cands[i]);
            insert_sorted(&mut sorted, row);
            assert(ds.take(i + 1).drop_last() =~= ds.take(i as int));
            assert(ds.take(i + 1).last() == ds[i as int]);
            i = i + 1;
        }
        assert(ds.take(cands.len() as int) =~= ds);
        sorted.truncate(MAX_ROWS);
        assert(rows_view(sorted@) =~= board(pv, changes@, now@));
        self.rows = sorted;
        if self.rows.len() == 0 {
            let mut s = String::new();
            push_str(&mut s, "No departures");
            self.status = Some(s);
        } else {
            self.status = None;
        }
        Ok(())
    }

    /// A compact fingerprint of the currently displayed board, used to decide
    /// whether the panel actually needs re-rendering.
    pub fn signature(&self) -> (r: String)
        ensures
            r@ == board_signature(self@.rows, self@.status),
    {
        let mut r = String::new();
        match &self.status {
            Some(st) => {
                push_str(&mut r, "!");
                push_str(&mut r, st.as_str());
                assert(r@ =~= board_signature(self@.rows, self@.status));
            },
            None => {
                let ghost rv = rows_view(self.rows@);
                let mut i: usize = 0;
                assert(r@ =~= board_signature(rv.take(0), None));
                while i < self.rows.len()
                    invariant
                        i <= self.rows.len(),
                        rv == rows_view(self.rows@),
                        rv.len() == self.rows.len(),
                        r@ == board_signature(rv.take(i as int), None),
                    decreases self.rows.len() - i,
                {
                    let row = &self.rows[i];
                    assert(rv[i as int] == row@);
                    push_row_signature(&mut r, row);
                    assert(rv.take(i + 1).drop_last() =~= rv.take(i as int));
                    assert(rv.take(i + 1).last() == row@);
                    i = i + 1;
                }
                assert(rv.take(self.rows.len() as int) =~= rv);
            },
        }
        r
    }

    /// URL of the planned timetable for the hour of `tm`:
    /// `{base}/plan/{eva}/{YYMMDD}/{HH}`.
    pub fn plan_url(&self, tm: &Tm) -> (r: String)
        requires
            tm_fits(*tm),
        ensures
            r@ == self@.cfg.base@ + "/plan/"@ + self@.cfg.eva@ + "/"@ + db_date_text(*tm) + "/"@
                + db_hour_text(*tm),
    {
        let mut r = String::new();
        push_str(&mut r, self.cfg.base.as_str());
        push_str(&mut r, "/plan/");
        push_str(&mut r, self.cfg.eva.as_str());
        push_str(&mut r, "/");
        let d = db_date(tm);
        push_str(&mut r, d.as_str());
        push_str(&mut r, "/");
        let h = db_hour(tm);
        push_str(&mut r, h.as_str());
        assert(r@ =~= self@.cfg.base@ + "/plan/"@ + self@.cfg.eva@ + "/"@ + db_date_text(*tm) + "/"@
            + db_hour_text(*tm));
        r
    }

    /// URL of the live changes feed: `{base}/fchg/{eva}`.
    pub fn changes_url(&self) -> (r: String)
        ensures
            r@ == self@.cfg.base@ + "/fchg/"@ + self@.cfg.eva@,
    {
        let mut r = String::new();
        push_str(&mut r, self.cfg.base.as_str());
        push_str(&mut r, "/fchg/");
        push_str(&mut r, self.cfg.eva.as_str());
        assert(r@ =~= self@.cfg.base@ + "/fchg/"@ + self@.cfg.eva@);
        r
    }

    /// The request credentials: client id and API key.
    pub fn credentials(&self) -> (r: (&str, &str))
        ensures
            r.0@ == self@.cfg.client_id@,
            r.1@ == self@.cfg.api_key@,
    {
        (self.cfg.client_id.as_str(), self.cfg.api_key.as_str())
    }
}


/// Rows in non-decreasing order of effective departure.
pub open spec fn rows_sorted(s: Seq<RowView>) -> bool {
    forall|i: int, j: int| 0 <= i < j < s.len() ==> !str_lt(s[j].sort_key, s[i].sort_key)
}

proof fn lemma_insert_row_sorted(s: Seq<RowView>, r: RowView)
    requires
        rows_sorted(s),
    ensures
        rows_sorted(insert_row(s, r)),
        insert_row(s, r).len() == s.len() + 1,
        forall|k: int| 0 <= k < insert_row(s, r).len() ==> #[trigger] insert_row(s, r)[k] == r
            || s.contains(insert_row(s, r)[k]),
    decreases s.len(),
{
    if s.len() == 0 {
    } else if str_lt(r.sort_key, s.last().sort_key) {
        let t = s.drop_last();
        assert(rows_sorted(t)) by {
            assert forall|i: int, j: int| 0 <= i < j < t.len() implies !str_lt(t[j].sort_key, t[i].sort_key) by {
                assert(t[i] == s[i] && t[j] == s[j]);
            }
        }
        lemma_insert_row_sorted(t, r);
        let u = insert_row(t, r);
        let last = s.last();
        assert forall|k: int| 0 <= k < u.len() implies !str_lt(last.sort_key, #[trigger] u[k].sort_key) by {
            lemma_str_lt_order(r.sort_key, last.sort_key, last.sort_key);
            if u[k] != r {
                assert(t.contains(u[k]));
                let m = choose|m: int| 0 <= m < t.len() && t[m] == u[k];
                assert(s[m] == u[k]);
                assert(s[s.len() - 1] == last);
            }
        }
        assert forall|k: int| 0 <= k < u.push(last).len() implies #[trigger] u.push(last)[k] == r
            || s.contains(u.push(last)[k]) by {
            if k == u.len() {
                assert(s[s.len() - 1] == last);
            } else if u[k] != r {
                let m = choose|m: int| 0 <= m < t.len() && t[m] == u[k];
                assert(s[m] == u[k]);
            }
        }
    } else {
        let last = s.last();
        assert forall|i: int| 0 <= i < s.len() implies !str_lt(r.sort_key, #[trigger] s[i].sort_key) by {
            lemma_str_lt_order(r.sort_key, last.sort_key, s[i].sort_key);
            lemma_str_lt_order(last.sort_key, s[i].sort_key, r.sort_key);
            lemma_str_lt_order(s[i].sort_key, last.sort_key, r.sort_key);
            lemma_str_lt_order(s[i].sort_key, r.sort_key, last.sort_key);
            if i < s.len() - 1 {
                assert(!str_lt(last.sort_key, s[i].sort_key));
            }
        }
        assert forall|k: int| 0 <= k < s.push(r).len() implies #[trigger] s.push(r)[k] == r
            || s.contains(s.push(r)[k]) by {
            if k < s.len() {
                assert(s[k] == s.push(r)[k]);
            }
        }
    }
}

proof fn lemma_sorted_rows(ds: Seq<Departure>)
    ensures
        rows_sorted(sorted_rows(ds)),
        sorted_rows(ds).len() == ds.len(),
        forall|k: int| 0 <= k < sorted_rows(ds).len() ==> exists|m: int|
            0 <= m < ds.len() && #[trigger] sorted_rows(ds)[k] == row_of(ds[m]),
    decreases ds.len(),
{
    if ds.len() > 0 {
        let p = ds.drop_last();
        lemma_sorted_rows(p);
        let s = sorted_rows(p);
        let r = row_of(ds.last());
        lemma_insert_row_sorted(s, r);
        let u = insert_row(s, r);
        assert forall|k: int| 0 <= k < u.len() implies exists|m: int|
            0 <= m < ds.len() && #[trigger] u[k] == row_of(ds[m]) by {
            if u[k] == r {
                assert(u[k] == row_of(ds[ds.len() - 1]));
            } else {
                let j = choose|j: int| 0 <= j < s.len() && s[j] == u[k];
                let m = choose|m: int| 0 <= m < p.len() && s[j] == row_of(p[m]);
                assert(ds[m] == p[m]);
            }
        }
    }
}

proof fn lemma_departures_facts(bs: Seq<Seq<char>>, es: Seq<(Seq<char>, Option<Seq<char>>, bool)>, now: Seq<char>)
    ensures
        forall|k: int| 0 <= k < departures(bs, es, now).len() ==> !str_lt(
            (#[trigger] departures(bs, es, now)[k]).effective,
            now,
        ),
        forall|i: int, j: int|
            0 <= i < j < departures(bs, es, now).len() ==> (#[trigger] departures(bs, es, now)[i]).id
                != (#[trigger] departures(bs, es, now)[j]).id,
    decreases bs.len(),
{
    if bs.len() > 0 {
        lemma_departures_facts(bs.drop_last(), es, now);
        let prev = departures(bs.drop_last(), es, now);
        match departure_of(bs.last(), es, now) {
            Some(d) => {
                if !has_trip(prev, d.id) {
                    let cur = prev.push(d);
                    assert forall|i: int, j: int| 0 <= i < j < cur.len() implies (#[trigger] cur[i]).id
                        != (#[trigger] cur[j]).id by {
                        if j == cur.len() - 1 {
                            if cur[i].id == d.id {
                                assert(prev[i].id == d.id);
                            }
                        } else {
                            assert(cur[i] == prev[i] && cur[j] == prev[j]);
                        }
                    }
                    assert forall|k: int| 0 <= k < cur.len() implies !str_lt((#[trigger] cur[k]).effective, now) by {
                        if k < prev.len() {
                            assert(cur[k] == prev[k]);
                        }
                    }
                }
            },
            None => {},
        }
    }
}

/// The board is in order of effective departure time, holds at most
/// `MAX_ROWS` rows, shows no departure before `now`, and never marks a
/// cancelled departure as delayed.
pub proof fn lemma_board_laws(plans: Seq<Seq<char>>, changes: Seq<char>, now: Seq<char>)
    ensures
        rows_sorted(board(plans, changes, now)),
        board(plans, changes, now).len() <= MAX_ROWS,
        forall|k: int| 0 <= k < board(plans, changes, now).len() ==> !str_lt(
            (#[trigger] board(plans, changes, now)[k]).sort_key,
            now,
        ),
        forall|k: int| 0 <= k < board(plans, changes, now).len() ==> (#[trigger] board(
            plans,
            changes,
            now,
        )[k]).cancelled ==> !board(plans, changes, now)[k].delayed,
{
    let ds = departures(plan_blocks(plans), change_entries(s_blocks(changes)), now);
    lemma_sorted_rows(ds);
    lemma_departures_facts(plan_blocks(plans), change_entries(s_blocks(changes)), now);
    let rows = sorted_rows(ds);
    let b = board(plans, changes, now);
    assert forall|k: int| 0 <= k < b.len() implies rows[k] == #[trigger] b[k] by {}
    assert forall|k: int| 0 <= k < b.len() implies !str_lt((#[trigger] b[k]).sort_key, now)
        && (b[k].cancelled ==> !b[k].delayed) by {
        let m = choose|m: int| 0 <= m < ds.len() && rows[k] == row_of(ds[m]);
        assert(!str_lt(ds[m].effective, now));
    }
}

proof fn lemma_insert_row_keeps(s: Seq<RowView>, r: RowView)
    ensures
        insert_row(s, r).contains(r),
        forall|j: int| 0 <= j < s.len() ==> insert_row(s, r).contains(#[trigger] s[j]),
    decreases s.len(),
{
    if s.len() == 0 {
        assert(seq![r][0] == r);
    } else if str_lt(r.sort_key, s.last().sort_key) {
        let t = s.drop_last();
        lemma_insert_row_keeps(t, r);
        let u = insert_row(t, r);
        let v = u.push(s.last());
        let i = choose|i: int| 0 <= i < u.len() && u[i] == r;
        assert(v[i] == r);
        assert forall|j: int| 0 <= j < s.len() implies v.contains(#[trigger] s[j]) by {
            if j == s.len() - 1 {
                assert(v[u.len() as int] == s[j]);
            } else {
                assert(t[j] == s[j]);
                assert(u.contains(t[j]));
                let k = choose|k: int| 0 <= k < u.len() && u[k] == t[j];
                assert(v[k] == s[j]);
            }
        }
    } else {
        let v = s.push(r);
        assert(v[s.len() as int] == r);
        assert forall|j: int| 0 <= j < s.len() implies v.contains(#[trigger] s[j]) by {
            assert(v[j] == s[j]);
        }
    }
}

proof fn lemma_sorted_rows_complete(ds: Seq<Departure>)
    ensures
        forall|m: int| 0 <= m < ds.len() ==> sorted_rows(ds).contains(row_of(#[trigger] ds[m])),
    decreases ds.len(),
{
    if ds.len() > 0 {
        let p = ds.drop_last();
        lemma_sorted_rows_complete(p);
        let s = sorted_rows(p);
        lemma_insert_row_keeps(s, row_of(ds.last()));
        let u = insert_row(s, row_of(ds.last()));
        assert forall|m: int| 0 <= m < ds.len() implies u.contains(row_of(#[trigger] ds[m])) by {
            if m < ds.len() - 1 {
                assert(ds[m] == p[m]);
                assert(s.contains(row_of(p[m])));
                let k = choose|k: int| 0 <= k < s.len() && s[k] == row_of(p[m]);
                assert(u.contains(s[k]));
            }
        }
    }
}

/// The board shows the earliest departures: every departure kept from the
/// timetables (at or after `now`, one per trip) either has its row on the
/// board, or the board is full and the departure leaves no earlier than the
/// last row shown.
pub proof fn lemma_board_complete(plans: Seq<Seq<char>>, changes: Seq<char>, now: Seq<char>)
    ensures
        ({
            let ds = departures(plan_blocks(plans), change_entries(s_blocks(changes)), now);
            let b = board(plans, changes, now);
            forall|m: int|
                0 <= m < ds.len() ==> (exists|k: int| 0 <= k < b.len() && b[k] == row_of(#[trigger] ds[m]))
                    || (b.len() == MAX_ROWS && !str_lt(ds[m].effective, b[b.len() - 1].sort_key))
        }),
{
    let ds = departures(plan_blocks(plans), change_entries(s_blocks(changes)), now);
    let rows = sorted_rows(ds);
    let b = board(plans, changes, now);
    lemma_sorted_rows(ds);
    lemma_sorted_rows_complete(ds);
    assert forall|m: int| 0 <= m < ds.len() implies (exists|k: int| 0 <= k < b.len() && b[k] == row_of(#[trigger] ds[m]))
        || (b.len() == MAX_ROWS && !str_lt(ds[m].effective, b[b.len() - 1].sort_key)) by {
        assert(rows.contains(row_of(ds[m])));
        let k = choose|k: int| 0 <= k < rows.len() && rows[k] == row_of(ds[m]);
        if k < b.len() {
            assert(b[k] == rows[k]);
        } else {
            assert(rows.len() > MAX_ROWS);
            assert(b.len() == MAX_ROWS);
            assert(b[b.len() - 1] == rows[MAX_ROWS - 1]);
            assert(!str_lt(rows[k].sort_key, rows[MAX_ROWS - 1].sort_key));
        }
    }
}

/// Departed trains are judged by their effective time only: a trip element
/// with an id and a planned departure is kept exactly when its effective
/// departure (the changed time from the changes feed, else the planned one)
/// is not before `now`, whatever its planned time; a kept departure carries
/// that planned time, the changed time and the effective time.
pub proof fn lemma_kept_by_effective_time(b: Seq<char>, es: Seq<(Seq<char>, Option<Seq<char>>, bool)>, now: Seq<char>)
    requires
        trip_id(b) is Some,
        open_tag(b, "<dp"@) is Some,
        attr(open_tag(b, "<dp"@).unwrap(), "pt"@) is Some,
    ensures
        ({
            let id = trip_id(b).unwrap();
            let pt = attr(open_tag(b, "<dp"@).unwrap(), "pt"@).unwrap();
            let ct = change_for(es, id).0;
            let eff = match ct {
                Some(c) => c,
                None => pt,
            };
            &&& (departure_of(b, es, now) is Some) == !str_lt(eff, now)
            &&& departure_of(b, es, now) matches Some(d) ==> d.id == id && d.planned == pt
                && d.changed == ct && d.effective == eff && d.cancelled == change_for(es, id).1
        }),
{
}

/// A kept departure of a trip not seen before in the earlier timetable
/// elements is among the board's candidates.
pub proof fn lemma_new_trip_is_candidate(bs: Seq<Seq<char>>, es: Seq<(Seq<char>, Option<Seq<char>>, bool)>, now: Seq<char>)
    requires
        bs.len() > 0,
        departure_of(bs.last(), es, now) is Some,
        !has_trip(departures(bs.drop_last(), es, now), departure_of(bs.last(), es, now).unwrap().id),
    ensures
        departures(bs, es, now).last() == departure_of(bs.last(), es, now).unwrap(),
        departures(bs, es, now).len() == departures(bs.drop_last(), es, now).len() + 1,
{
}

/// Each trip contributes at most one departure: departures of the same trip
/// in several timetable documents (one per hour) are shown once.
pub proof fn lemma_trips_distinct(plans: Seq<Seq<char>>, changes: Seq<char>, now: Seq<char>)
    ensures
        ({
            let ds = departures(plan_blocks(plans), change_entries(s_blocks(changes)), now);
            forall|i: int, j: int| 0 <= i < j < ds.len() ==> (#[trigger] ds[i]).id != (#[trigger] ds[j]).id
        }),
{
    lemma_departures_facts(plan_blocks(plans), change_entries(s_blocks(changes)), now);
}


/// Width of one character cell of the board's font.
pub const CW: i32 = 9;

/// A text step in the board's style.
pub open spec fn board_text(text: Seq<char>, x: int, y: int, font: Font, align: HAlign, baseline: VAlign, ink: Ink) -> OpView {
    OpView::Text { text, x, y, font, align, baseline, ink }
}

/// Geometry of board row `i` inside the content area: top edge, vertical
/// middle, line-badge width, left edge of the time cluster, and where the
/// destination starts and how many of its characters fit.
pub open spec fn row_geometry(inner: Rect, i: int, r: RowView) -> (int, int, int, int, int, int) {
    let ytop = inner.y + 2 + i * 29;
    let vmid = ytop + 9;
    let n = if r.line.len() > 1 { r.line.len() as int } else { 1 };
    let bw = n * 9 + 12;
    let cluster_w: int = if r.delayed || r.cancelled { 106 } else { 45 };
    let cluster_left = inner.x + (inner.width as i32) - cluster_w;
    let dest_x = inner.x + bw + 8;
    let dest_px = if cluster_left - 6 - dest_x > 9 { cluster_left - 6 - dest_x } else { 9 };
    (ytop, vmid, bw, cluster_left, dest_x, dest_px / 9)
}

/// The drawing steps of one board row, DB style: the line in a black
/// rounded badge, the planned time on the right (struck through when
/// cancelled), the actual time, or `ausf.` when cancelled, in a black box
/// after it when delayed or cancelled, and the destination in between,
/// clipped to the room left.
pub open spec fn row_ops(inner: Rect, i: int, r: RowView) -> Seq<OpView> {
    let (ytop, vmid, bw, cl, dest_x, dest_chars) = row_geometry(inner, i, r);
    let show_box = r.delayed || r.cancelled;
    seq![
        OpView::RoundedBox { rect: Rect { x: inner.x, y: ytop as i32, width: bw as u32, height: 18 }, radius: 4 },
        board_text(r.line, inner.x + bw / 2, vmid, Font::Latin9x15Bold, HAlign::Center, VAlign::Middle, Ink::White),
        board_text(r.planned, cl, vmid, Font::Latin9x15, HAlign::Left, VAlign::Middle, Ink::Black),
    ] + (if r.cancelled {
        seq![OpView::Line { x0: cl, y0: vmid, x1: cl + 45, y1: vmid, width: 1 }]
    } else {
        seq![]
    }) + (if show_box {
        seq![
            OpView::RoundedBox { rect: Rect { x: (cl + 53) as i32, y: ytop as i32, width: 53, height: 18 }, radius: 4 },
            board_text(if r.cancelled { "ausf."@ } else { r.actual }, cl + 53 + 26, vmid, Font::Latin9x15Bold, HAlign::Center, VAlign::Middle, Ink::White),
        ]
    } else {
        seq![]
    }) + seq![board_text(truncated(r.dest, dest_chars), dest_x, vmid, Font::Latin9x15, HAlign::Left, VAlign::Middle, Ink::Black)]
}

/// The drawing steps of the rows `rows`.
pub open spec fn rows_ops(rows: Seq<RowView>, inner: Rect) -> Seq<OpView>
    decreases rows.len(),
{
    if rows.len() == 0 {
        seq![]
    } else {
        rows_ops(rows.drop_last(), inner) + row_ops(inner, rows.len() - 1, rows.last())
    }
}

/// The block's drawing steps: the panel titled `S-BAHN - <station>`, then the
/// status line, or the rows.
pub open spec fn departures_ops(v: DeparturesView) -> Seq<OpView> {
    let inner = inner_rect(v.bounds);
    panel_ops(v.bounds, "S-BAHN - "@ + v.station_name) + match v.status {
        Some(st) => seq![board_text(st, inner.x as int, inner.y + 20, Font::Latin9x15, HAlign::Left, VAlign::Top, Ink::Black)],
        None => rows_ops(v.rows, inner),
    }
}

/// Row `i`'s coordinates stay within `i32`.
pub open spec fn row_fits(inner: Rect, i: int, r: RowView) -> bool {
    let (ytop, vmid, bw, cl, dest_x, dest_chars) = row_geometry(inner, i, r);
    let n = if r.line.len() > 1 { r.line.len() as int } else { 1 };
    &&& fits(inner.y + 2)
    &&& fits(ytop)
    &&& fits(vmid)
    &&& fits(n * 9)
    &&& fits(bw)
    &&& fits(inner.x + bw / 2)
    &&& fits(inner.x + (inner.width as i32))
    &&& fits(cl)
    &&& fits(cl + 45)
    &&& fits(cl + 53)
    &&& fits(cl + 53 + 26)
    &&& fits(cl - 6)
    &&& fits(inner.x + bw)
    &&& fits(dest_x)
    &&& fits(cl - 6 - dest_x)
}

/// The block's coordinates stay within `i32`.
pub open spec fn departures_fit(v: DeparturesView) -> bool {
    let inner = inner_rect(v.bounds);
    &&& panel_fits(v.bounds)
    &&& fits(inner.y + 20)
    &&& v.rows.len() <= MAX_ROWS
    &&& forall|i: int| 0 <= i < v.rows.len() ==> row_fits(inner, i, #[trigger] v.rows[i])
}

fn render_row(ops: &mut Vec<DrawOp>, inner: Rect, i: usize, row: &Row)
    requires
        i < MAX_ROWS,
        row_fits(inner, i as int, row@),
    ensures
        ops_view(final(ops)@) == ops_view(old(ops)@) + row_ops(inner, i as int, row@),
{
    let ghost start = ops_view(ops@);
    let ghost g = row_geometry(inner, i as int, row@);
    let ix = inner.x;
    let iw = #[verifier::truncate] (inner.width as i32);
    let ytop = inner.y + 2 + (i as i32) * 29;
    let vmid = ytop + 18 / 2;
    let count = str_chars(row.line.as_str()).len();
    let n: i32 = if count > 1 { count as i32 } else { 1 };
    let bw: u32 = (n * CW + 12) as u32;
    emit(ops, DrawOp::RoundedBox { rect: Rect { x: ix, y: ytop, width: bw, height: 18 }, radius: 4 });
    emit(ops, DrawOp::Text {
        text: owned(row.line.as_str()),
        x: ix + (bw as i32) / 2,
        y: vmid,
        font: Font::Latin9x15Bold,
        align: HAlign::Center,
        baseline: VAlign::Middle,
        ink: Ink::White,
    });
    let time_w = 5 * CW;
    let show_box = row.delayed || row.cancelled;
    let box_w: u32 = (time_w + 8) as u32;
    let cluster_w = if show_box { time_w + 8 + box_w as i32 } else { time_w };
    let cluster_left = ix + iw - cluster_w;
    emit(ops, DrawOp::Text {
        text: owned(row.planned.as_str()),
        x: cluster_left,
        y: vmid,
        font: Font::Latin9x15,
        align: HAlign::Left,
        baseline: VAlign::Middle,
        ink: Ink::Black,
    });
    let ghost mid = ops_view(ops@);
    if row.cancelled {
        emit(ops, DrawOp::Line { x0: cluster_left, y0: vmid, x1: cluster_left + time_w, y1: vmid, width: 1 });
    }
    let ghost mid2 = ops_view(ops@);
    if show_box {
        let box_x = cluster_left + time_w + 8;
        emit(ops, DrawOp::RoundedBox { rect: Rect { x: box_x, y: ytop, width: box_w, height: 18 }, radius: 4 });
        let text = if row.cancelled { owned("ausf.") } else { owned(row.actual.as_str()) };
        emit(ops, DrawOp::Text {
            text,
            x: box_x + (box_w as i32) / 2,
            y: vmid,
            font: Font::Latin9x15Bold,
            align: HAlign::Center,
            baseline: VAlign::Middle,
            ink: Ink::White,
        });
    }
    let ghost mid3 = ops_view(ops@);
    let dest_x = ix + bw as i32 + 8;
    let room = cluster_left - 6 - dest_x;
    let dest_px = if room > CW { room } else { CW };
    let dest_chars = (dest_px / CW) as usize;
    emit(ops, DrawOp::Text {
        text: truncate(row.dest.as_str(), dest_chars),
        x: dest_x,
        y: vmid,
        font: Font::Latin9x15,
        align: HAlign::Left,
        baseline: VAlign::Middle,
        ink: Ink::Black,
    });
    assert(ops_view(ops@) =~= start + row_ops(inner, i as int, row@));
}

impl DeparturesModule {
    /// Draws the board: the panel titled with the station, then the status
    /// line, or one 29px row per departure.
    pub fn render(&self) -> (r: Vec<DrawOp>)
        requires
            departures_fit(self@),
        ensures
            ops_view(r@) == departures_ops(self@),
    {
        let mut title = String::new();
        push_str(&mut title, "S-BAHN - ");
        push_str(&mut title, self.station_name);
        let mut ops: Vec<DrawOp> = Vec::new();
        let inner = draw_panel(&mut ops, self.bounds, title.as_str());
        let ghost head = ops_view(ops@);
        match &self.status {
            Some(st) => {
                emit(&mut ops, DrawOp::Text {
                    text: owned(st.as_str()),
                    x: inner.x,
                    y: inner.y + 20,
                    font: Font::Latin9x15,
                    align: HAlign::Left,
                    baseline: VAlign::Top,
                    ink: Ink::Black,
                });
                assert(ops_view(ops@) =~= departures_ops(self@));
                return ops;
            },
            None => {},
        }
        let ghost rv = rows_view(self.rows@);
        let mut i: usize = 0;
        assert(head =~= ops_view(ops@) + rows_ops(rv.take(0), inner));
        while i < self.rows.len()
            invariant
                i <= self.rows.len(),
                rv == rows_view(self.rows@),
                rv.len() == self.rows.len(),
                rv == self@.rows,
                departures_fit(self@),
                inner == inner_rect(self@.bounds),
                ops_view(ops@) == head + rows_ops(rv.take(i as int), inner),
            decreases self.rows.len() - i,
        {
            let row = &self.rows[i];
            assert(rv[i as int] == row@);
            render_row(&mut ops, inner, i, row);
            assert(rv.take(i + 1).drop_last() =~= rv.take(i as int));
            assert(rv.take(i + 1).last() == row@);
            assert(ops_view(ops@) =~= head + rows_ops(rv.take(i + 1), inner));
            i = i + 1;
        }
        assert(rv.take(self.rows.len() as int) =~= rv);
        ops
    }
}


fn row_can_render(inner: Rect, i: usize, row: &Row) -> (r: bool)
    requires
        i < MAX_ROWS,
    ensures
        r == row_fits(inner, i as int, row@),
{
    let count = str_chars(row.line.as_str()).len();
    if count > 1_000_000_000 {
        return false;
    }
    let n: i64 = if count > 1 { count as i64 } else { 1 };
    let ix = inner.x as i64;
    let iw = #[verifier::truncate] (inner.width as i32) as i64;
    let ytop = inner.y as i64 + 2 + (i as i64) * 29;
    let vmid = ytop + 9;
    let bw = n * 9 + 12;
    let cluster_w: i64 = if row.delayed || row.cancelled { 106 } else { 45 };
    let cl = ix + iw - cluster_w;
    let dest_x = ix + bw + 8;
    fits64(inner.y as i64 + 2) && fits64(ytop) && fits64(vmid) && fits64(n * 9) && fits64(bw)
        && fits64(ix + bw / 2) && fits64(ix + iw) && fits64(cl) && fits64(cl + 45) && fits64(cl + 53)
        && fits64(cl + 53 + 26) && fits64(cl - 6) && fits64(ix + bw) && fits64(dest_x) && fits64(
        cl - 6 - dest_x,
    )
}

impl DeparturesModule {
    /// Whether the block's coordinates stay within `i32` (what `render`
    /// needs).
    pub fn can_render(&self) -> (r: bool)
        ensures
            r == departures_fit(self@),
    {
        if !panel_can_draw(self.bounds) || self.rows.len() > MAX_ROWS {
            return false;
        }
        let inner = crate::geometry::panel_inner(self.bounds);
        if !fits64(inner.y as i64 + 20) {
            return false;
        }
        let ghost rv = rows_view(self.rows@);
        let mut i: usize = 0;
        while i < self.rows.len()
            invariant
                i <= self.rows.len(),
                self.rows.len() <= MAX_ROWS,
                rv == rows_view(self.rows@),
                rv == self@.rows,
                inner == inner_rect(self@.bounds),
                forall|k: int| 0 <= k < i ==> row_fits(inner, k, #[trigger] rv[k]),
            decreases self.rows.len() - i,
        {
            assert(rv[i as int] == self.rows@[i as int]@);
            if !row_can_render(inner, i, &self.rows[i]) {
                return false;
            }
            i = i + 1;
        }
        true
    }
}

}
