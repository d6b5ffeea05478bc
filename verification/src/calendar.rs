//! The calendar block: upcoming appointments formatted for display, the
//! status line shown instead of them, and the requests it sends to the
//! calendar service.

use vstd::prelude::*;
use crate::dates::{day_text, fmt_day, has_weekday, prev_day, prev_day_of, weekday_defined};
use crate::dates::tdiv;
use crate::draw::{draw_panel, emit_text, fits, fits64, ops_view, panel_can_draw, panel_fits, panel_ops, text_at, truncate, truncated, DrawOp, Font, OpView};
use crate::geometry::{inner_rect, Rect};
use crate::text::{owned, push_char, push_str, slice_of, str_chars, str_get, str_less, str_lt};

verus! {

/// Appointments shown at most.
pub const MAX_EVENTS: usize = 5;

/// Google Calendar OAuth access (installed-app flow). An empty
/// `refresh_token` disables the calendar block.
pub struct GcalConfig {
    pub client_id: String,
    pub client_secret: String,
    pub refresh_token: String,
    pub calendar_id: String,
}

/// One event as the calendar service lists it: its title and the start and
/// end, either as a timestamp (`dateTime`) or, for all-day events, a date.
pub struct CalendarItem {
    pub summary: Option<String>,
    pub start_date_time: Option<String>,
    pub start_date: Option<String>,
    pub end_date: Option<String>,
}

/// The contents of a [`CalendarItem`].
pub struct ItemView {
    pub summary: Option<Seq<char>>,
    pub start_date_time: Option<Seq<char>>,
    pub start_date: Option<Seq<char>>,
    pub end_date: Option<Seq<char>>,
}

pub open spec fn opt_view(o: Option<String>) -> Option<Seq<char>> {
    match o {
        Some(s) => Some(s@),
        None => None,
    }
}

impl View for CalendarItem {
    type V = ItemView;

    open spec fn view(&self) -> ItemView {
        ItemView {
            summary: opt_view(self.summary),
            start_date_time: opt_view(self.start_date_time),
            start_date: opt_view(self.start_date),
            end_date: opt_view(self.end_date),
        }
    }
}

/// One upcoming appointment, pre-formatted for rendering.
pub struct CalEvent {
    pub when: String,
    pub title: String,
}

/// `s.get(a..b).unwrap_or("")`.
pub open spec fn slice_or_empty(s: Seq<char>, a: int, b: int) -> Seq<char> {
    match slice_of(s, a, b) {
        Some(t) => t,
        None => ""@,
    }
}

/// When an appointment takes place: "Wed 24 14:30" for a timed event, the
/// day (or "first - last" day for a multi-day event; the service's end date
/// is exclusive) for an all-day event, nothing when neither is given.
pub open spec fn event_when(it: ItemView, today: Seq<char>) -> Seq<char> {
    match it.start_date_time {
        Some(dt) => day_text(slice_or_empty(dt, 0, 10), today) + " "@ + slice_or_empty(dt, 11, 16),
        None => match it.start_date {
            Some(d) => match it.end_date {
                Some(e0) => if str_lt(d, prev_day_of(e0)) {
                    day_text(d, today) + " - "@ + day_text(prev_day_of(e0), today)
                } else {
                    day_text(d, today)
                },
                None => day_text(d, today),
            },
            None => ""@,
        },
    }
}

/// The title shown for an appointment.
pub open spec fn event_title(it: ItemView) -> Seq<char> {
    match it.summary {
        Some(s) => s,
        None => "(no title)"@,
    }
}

/// Every date the appointment's line is built from names a month, so that
/// its weekday can be computed.
pub open spec fn item_dates_ok(it: ItemView) -> bool {
    match it.start_date_time {
        Some(dt) => weekday_defined(slice_or_empty(dt, 0, 10)),
        None => match it.start_date {
            Some(d) => weekday_defined(d) && match it.end_date {
                Some(e0) => str_lt(d, prev_day_of(e0)) ==> weekday_defined(prev_day_of(e0)),
                None => true,
            },
            None => true,
        },
    }
}

/// The appointments shown for `items`: the first `MAX_EVENTS` of them.
pub open spec fn shown_events(items: Seq<ItemView>, today: Seq<char>) -> Seq<(Seq<char>, Seq<char>)> {
    let n = if items.len() > MAX_EVENTS { MAX_EVENTS as int } else { items.len() as int };
    Seq::new(n as nat, |i: int| (event_when(items[i], today), event_title(items[i])))
}

/// The status line after loading appointments.
pub open spec fn loaded_status(events: Seq<(Seq<char>, Seq<char>)>) -> Seq<char> {
    if events.len() == 0 {
        "No upcoming events"@
    } else {
        ""@
    }
}

/// The fingerprint of the calendar block: `!status` when a status line is
/// set, otherwise `when|title;` for each appointment.
pub open spec fn calendar_signature(events: Seq<(Seq<char>, Seq<char>)>, status: Seq<char>) -> Seq<char>
    decreases events.len(),
{
    if status.len() > 0 {
        "!"@ + status
    } else if events.len() == 0 {
        seq![]
    } else {
        calendar_signature(events.drop_last(), status) + events.last().0 + "|"@ + events.last().1 + ";"@
    }
}

/// The appointment line of one item.
fn item_when(it: &CalendarItem, today: &str) -> (r: String)
    requires
        item_dates_ok(it@),
    ensures
        r@ == event_when(it@, today@),
{
    match &it.start_date_time {
        Some(dt) => {
            let date = match str_get(dt.as_str(), 0, 10) {
                Some(t) => t,
                None => "",
            };
            let time = match str_get(dt.as_str(), 11, 16) {
                Some(t) => t,
                None => "",
            };
            let mut r = fmt_day(date, today);
            push_str(&mut r, " ");
            push_str(&mut r, time);
            assert(r@ =~= event_when(it@, today@));
            r
        },
        None => match &it.start_date {
            Some(d) => match &it.end_date {
                Some(e0) => {
                    let e = prev_day(e0.as_str());
                    if str_less(d.as_str(), e.as_str()) {
                        let mut r = fmt_day(d.as_str(), today);
                        push_str(&mut r, " - ");
                        let second = fmt_day(e.as_str(), today);
                        push_str(&mut r, second.as_str());
                        assert(r@ =~= event_when(it@, today@));
                        r
                    } else {
                        fmt_day(d.as_str(), today)
                    }
                },
                None => fmt_day(d.as_str(), today),
            },
            None => {
                let r = String::new();
                assert(r@ =~= ""@) by {
                    reveal_strlit("");
                }
                r
            },
        },
    }
}

fn copy_string(s: &String) -> (r: String)
    ensures
        r@ == s@,
{
    let mut r = String::new();
    push_str(&mut r, s.as_str());
    assert(r@ =~= s@);
    r
}

/// Bottom block: the next Google Calendar appointments.
pub struct CalendarModule {
    bounds: Rect,
    cfg: GcalConfig,
    token: Option<String>,
    events: Vec<CalEvent>,
    status: String,
}

/// What a calendar block holds.
pub struct CalendarView {
    pub bounds: Rect,
    pub cfg: GcalConfig,
    /// Cached OAuth access token.
    pub token: Option<Seq<char>>,
    pub events: Seq<(Seq<char>, Seq<char>)>,
    pub status: Seq<char>,
}

pub open spec fn events_view(es: Seq<CalEvent>) -> Seq<(Seq<char>, Seq<char>)> {
    es.map_values(|e: CalEvent| (e.when@, e.title@))
}

impl View for CalendarModule {
    type V = CalendarView;

    closed spec fn view(&self) -> CalendarView {
        CalendarView {
            bounds: self.bounds,
            cfg: self.cfg,
            token: opt_view(self.token),
            events: events_view(self.events@),
            status: self.status@,
        }
    }
}

/// The status shown by a new block: a hint when the block is not configured.
pub open spec fn initial_status(cfg: GcalConfig) -> Seq<char> {
    if cfg.refresh_token@.len() == 0 {
        "Google Calendar not configured (see .secret)"@
    } else {
        "Loading..."@
    }
}

impl CalendarModule {
    pub fn new(bounds: Rect, cfg: GcalConfig) -> (r: CalendarModule)
        ensures
            r@.bounds == bounds,
            r@.cfg == cfg,
            r@.token is None,
            r@.events == Seq::<(Seq<char>, Seq<char>)>::empty(),
            r@.status == initial_status(cfg),
    {
        let mut status = String::new();
        if cfg.refresh_token.as_str().is_empty() {
            push_str(&mut status, "Google Calendar not configured (see .secret)");
        } else {
            push_str(&mut status, "Loading...");
        }
        let r = CalendarModule { bounds, cfg, token: None, events: Vec::new(), status };
        assert(r@.events =~= Seq::<(Seq<char>, Seq<char>)>::empty());
        assert(status@ =~= initial_status(cfg)) by {
            reveal_strlit("");
        }
        r
    }

    /// The block's rectangle on the panel.
    pub fn bounds(&self) -> (r: Rect)
        ensures
            r == self@.bounds,
    {
        self.bounds
    }

    /// The appointments shown, in order.
    pub fn events(&self) -> (r: &Vec<CalEvent>)
        ensures
            events_view(r@) == self@.events,
    {
        &self.events
    }

    /// The status line.
    pub fn status(&self) -> (r: &str)
        ensures
            r@ == self@.status,
    {
        self.status.as_str()
    }

    /// Turn the listed calendar items into renderable rows. `today` is the
    /// local `YYYY-MM-DD` date, used to decide when to show a month.
    pub fn load(&mut self, items: &Vec<CalendarItem>, today: &str) -> (r: Result<(), ()>)
        requires
            forall|i: int| 0 <= i < items.len() && i < MAX_EVENTS ==> item_dates_ok(#[trigger] items@[i]@),
        ensures
            r is Ok,
            final(self)@.events == shown_events(items@.map_values(|it: CalendarItem| it@), today@),
            final(self)@.status == loaded_status(final(self)@.events),
            final(self)@.bounds == old(self)@.bounds,
            final(self)@.cfg == old(self)@.cfg,
            final(self)@.token == old(self)@.token,
    {
        let ghost iv = items@.map_values(|it: CalendarItem| it@);
        let n: usize = if items.len() > MAX_EVENTS { MAX_EVENTS } else { items.len() };
        let mut events: Vec<CalEvent> = Vec::new();
        let mut i: usize = 0;
        while i < n
            invariant
                n <= items.len(),
                n <= MAX_EVENTS,
                i <= n,
                iv == items@.map_values(|it: CalendarItem| it@),
                forall|k: int| 0 <= k < items.len() && k < MAX_EVENTS ==> item_dates_ok(#[trigger] items@[k]@),
                events_view(events@) == shown_events(iv, today@).take(i as int),
            decreases n - i,
        {
            let it = &items[i];
            assert(iv[i as int] == it@);
            let when = item_when(it, today);
            let title = match &it.summary {
                Some(s) => copy_string(s),
                None => {
                    let mut t = String::new();
                    push_str(&mut t, "(no title)");
                    assert(t@ =~= "(no title)"@);
                    t
                },
            };
            assert(title@ == event_title(iv[i as int]));
            assert(when@ == event_when(iv[i as int], today@));
            let ghost before = events_view(events@);
            events.push(CalEvent { when, title });
            assert(events_view(events@) =~= before.push((when@, title@)));
            assert(shown_events(iv, today@)[i as int] == (event_when(iv[i as int], today@), event_title(iv[i as int])));
            assert(events_view(events@) =~= shown_events(iv, today@).take(i + 1));
            i = i + 1;
        }
        assert(shown_events(iv, today@).take(n as int) =~= shown_events(iv, today@));
        self.events = events;
        let mut status = String::new();
        if self.events.len() == 0 {
            push_str(&mut status, "No upcoming events");
        }
        assert(status@ =~= loaded_status(events_view(self.events@))) by {
            reveal_strlit("");
        }
        self.status = status;
        Ok(())
    }

    /// Show a short status line instead of events (e.g. when unconfigured).
    pub fn set_status(&mut self, status: &str)
        ensures
            final(self)@.events == Seq::<(Seq<char>, Seq<char>)>::empty(),
            final(self)@.status == status@,
            final(self)@.bounds == old(self)@.bounds,
            final(self)@.cfg == old(self)@.cfg,
            final(self)@.token == old(self)@.token,
    {
        self.events = Vec::new();
        let mut s = String::new();
        push_str(&mut s, status);
        self.status = s;
        assert(events_view(self.events@) =~= Seq::<(Seq<char>, Seq<char>)>::empty());
        assert(self.status@ =~= status@);
    }

    /// A compact fingerprint of the current calendar content, used to decide
    /// whether the panel actually needs re-rendering.
    pub fn signature(&self) -> (r: String)
        ensures
            r@ == calendar_signature(self@.events, self@.status),
    {
        let mut r = String::new();
        if !self.status.as_str().is_empty() {
            push_str(&mut r, "!");
            push_str(&mut r, self.status.as_str());
            assert(r@ =~= calendar_signature(self@.events, self@.status));
            return r;
        }
        let ghost ev = events_view(self.events@);
        let mut i: usize = 0;
        assert(r@ =~= calendar_signature(ev.take(0), self.status@));
        while i < self.events.len()
            invariant
                i <= self.events.len(),
                ev == events_view(self.events@),
                ev.len() == self.events.len(),
                self.status@.len() == 0,
                r@ == calendar_signature(ev.take(i as int), self.status@),
            decreases self.events.len() - i,
        {
            let e = &self.events[i];
            let ghost before = r@;
            push_str(&mut r, e.when.as_str());
            push_str(&mut r, "|");
            push_str(&mut r, e.title.as_str());
            push_str(&mut r, ";");
            assert(ev.take(i + 1).drop_last() =~= ev.take(i as int));
            assert(ev.take(i + 1).last() == (e.when@, e.title@));
            assert(r@ =~= before + e.when@ + "|"@ + e.title@ + ";"@);
            i = i + 1;
        }
        assert(ev.take(self.events.len() as int) =~= ev);
        r
    }

    /// The block shows appointments only when a refresh token is configured.
    pub fn is_configured(&self) -> (r: bool)
        ensures
            r == (self@.cfg.refresh_token@.len() > 0),
    {
        !self.cfg.refresh_token.as_str().is_empty()
    }

    /// A new access token is minted on the slow cadence, or when none is
    /// cached.
    pub fn wants_token(&self, slow: bool) -> (r: bool)
        ensures
            r == (slow || self@.token is None),
    {
        slow || self.token.is_none()
    }

    /// Folds in the outcome of minting an access token: a new token replaces
    /// the cached one; a failure shows "Calendar auth failed" and keeps the
    /// cached token.
    pub fn token_result(&mut self, token: Option<String>)
        ensures
            match token {
                Some(t) => {
                    &&& final(self)@.token == Some(t@)
                    &&& final(self)@.events == old(self)@.events
                    &&& final(self)@.status == old(self)@.status
                },
                None => {
                    &&& final(self)@.token == old(self)@.token
                    &&& final(self)@.events == Seq::<(Seq<char>, Seq<char>)>::empty()
                    &&& final(self)@.status == "Calendar auth failed"@
                },
            },
            final(self)@.bounds == old(self)@.bounds,
            final(self)@.cfg == old(self)@.cfg,
    {
        match token {
            Some(t) => {
                self.token = Some(t);
            },
            None => {
                self.set_status("Calendar auth failed");
            },
        }
    }

    /// Takes the cached token out for an events request.
    pub fn take_token(&mut self) -> (r: Option<String>)
        ensures
            opt_view(r) == old(self)@.token,
            final(self)@.token is None,
            final(self)@.events == old(self)@.events,
            final(self)@.status == old(self)@.status,
            final(self)@.bounds == old(self)@.bounds,
            final(self)@.cfg == old(self)@.cfg,
    {
        self.token.take()
    }

    /// Folds in the outcome of an events request made with `token`: listed
    /// items are loaded and the token kept; an unreadable listing shows
    /// "Calendar parse error" and keeps the token; a failed request shows
    /// "Calendar unavailable" and drops the token so that it is minted again.
    pub fn events_result(&mut self, token: String, outcome: EventsOutcome, today: &str)
        requires
            outcome matches EventsOutcome::Listed(items) ==> forall|i: int|
                0 <= i < items.len() && i < MAX_EVENTS ==> item_dates_ok(#[trigger] items@[i]@),
        ensures
            match outcome {
                EventsOutcome::Listed(items) => {
                    &&& final(self)@.token == Some(token@)
                    &&& final(self)@.events == shown_events(items@.map_values(|it: CalendarItem| it@), today@)
                    &&& final(self)@.status == loaded_status(final(self)@.events)
                },
                EventsOutcome::Unreadable => {
                    &&& final(self)@.token == Some(token@)
                    &&& final(self)@.events == Seq::<(Seq<char>, Seq<char>)>::empty()
                    &&& final(self)@.status == "Calendar parse error"@
                },
                EventsOutcome::Failed => {
                    &&& final(self)@.token == old(self)@.token
                    &&& final(self)@.events == Seq::<(Seq<char>, Seq<char>)>::empty()
                    &&& final(self)@.status == "Calendar unavailable"@
                },
            },
            final(self)@.bounds == old(self)@.bounds,
            final(self)@.cfg == old(self)@.cfg,
    {
        match outcome {
            EventsOutcome::Listed(items) => {
                self.token = Some(token);
                let _ = self.load(&items, today);
            },
            EventsOutcome::Unreadable => {
                self.token = Some(token);
                self.set_status("Calendar parse error");
            },
            EventsOutcome::Failed => {
                self.set_status("Calendar unavailable");
            },
        }
    }

    /// Form body of the token request (installed-app refresh flow).
    pub fn token_request_body(&self) -> (r: String)
        ensures
            r@ == "client_id="@ + self@.cfg.client_id@ + "&client_secret="@ + self@.cfg.client_secret@
                + "&refresh_token="@ + self@.cfg.refresh_token@ + "&grant_type=refresh_token"@,
    {
        let mut r = String::new();
        push_str(&mut r, "client_id=");
        push_str(&mut r, self.cfg.client_id.as_str());
        push_str(&mut r, "&client_secret=");
        push_str(&mut r, self.cfg.client_secret.as_str());
        push_str(&mut r, "&refresh_token=");
        push_str(&mut r, self.cfg.refresh_token.as_str());
        push_str(&mut r, "&grant_type=refresh_token");
        assert(r@ =~= "client_id="@ + self@.cfg.client_id@ + "&client_secret="@
            + self@.cfg.client_secret@ + "&refresh_token="@ + self@.cfg.refresh_token@
            + "&grant_type=refresh_token"@);
        r
    }

    /// URL listing upcoming events of the configured calendar (`primary`
    /// when none is set) from `time_min` on.
    pub fn events_url(&self, time_min: &str) -> (r: String)
        ensures
            r@ == "https://www.googleapis.com/calendar/v3/calendars/"@ + calendar_path(
                self@.cfg.calendar_id@,
            ) + "/events?singleEvents=true&orderBy=startTime&maxResults=6&timeMin="@ + time_min@
                + "&fields=items(summary,start,end)"@,
    {
        let mut r = String::new();
        push_str(&mut r, "https://www.googleapis.com/calendar/v3/calendars/");
        if self.cfg.calendar_id.as_str().is_empty() {
            push_str(&mut r, "primary");
        } else {
            push_escaped_at(&mut r, self.cfg.calendar_id.as_str());
        }
        push_str(&mut r, "/events?singleEvents=true&orderBy=startTime&maxResults=6&timeMin=");
        push_str(&mut r, time_min);
        push_str(&mut r, "&fields=items(summary,start,end)");
        assert(r@ =~= "https://www.googleapis.com/calendar/v3/calendars/"@ + calendar_path(
            self@.cfg.calendar_id@,
        ) + "/events?singleEvents=true&orderBy=startTime&maxResults=6&timeMin="@ + time_min@
            + "&fields=items(summary,start,end)"@);
        r
    }
}

/// How an events request ended.
pub enum EventsOutcome {
    /// The service answered with a readable listing.
    Listed(Vec<CalendarItem>),
    /// The service answered, but the listing could not be read.
    Unreadable,
    /// The request failed.
    Failed,
}

/// A failed events request makes the next poll mint a new token, slow tick
/// or not: the request took the cached token out (`take_token`), and folding
/// in the failure (`events_result`) puts none back, so `wants_token` holds.
pub proof fn lemma_failed_request_remints(taken: CalendarView, after: CalendarView, slow: bool)
    requires
        taken.token is None,
        after.token == taken.token,
    ensures
        after.token is None,
        slow || after.token is None,
{
}

/// `s` with every `@` written as `%40`.
pub open spec fn escape_at(s: Seq<char>) -> Seq<char>
    decreases s.len(),
{
    if s.len() == 0 {
        s
    } else if s.last() == '@' {
        escape_at(s.drop_last()) + "%40"@
    } else {
        escape_at(s.drop_last()).push(s.last())
    }
}

/// The calendar's path segment: `primary` when no id is set.
pub open spec fn calendar_path(id: Seq<char>) -> Seq<char> {
    if id.len() == 0 {
        "primary"@
    } else {
        escape_at(id)
    }
}

fn push_escaped_at(r: &mut String, s: &str)
    ensures
        final(r)@ == old(r)@ + escape_at(s@),
{
    let v = str_chars(s);
    let ghost start = r@;
    let mut i: usize = 0;
    while i < v.len()
        invariant
            i <= v.len(),
            v@ == s@,
            r@ == start + escape_at(v@.take(i as int)),
        decreases v.len() - i,
    {
        assert(v@.take(i + 1).drop_last() =~= v@.take(i as int));
        if v[i] == '@' {
            push_str(r, "%40");
        } else {
            push_char(r, v[i]);
        }
        i = i + 1;
        assert(r@ =~= start + escape_at(v@.take(i as int)));
    }
    assert(v@.take(v.len() as int) =~= s@);
}

/// `Authorization` header value for an access token.
pub fn bearer(token: &str) -> (r: String)
    ensures
        r@ == "Bearer "@ + token@,
{
    let mut r = String::new();
    push_str(&mut r, "Bearer ");
    push_str(&mut r, token);
    assert(r@ =~= "Bearer "@ + token@);
    r
}


/// Where appointment `i` goes inside the content area `inner`: its row, the
/// column where the title starts (one 9px cell per character of the date
/// column, plus 8px) and how many title characters fit before the right edge.
pub open spec fn event_row_layout(inner: Rect, i: int, when_len: int) -> (int, int, int) {
    let y = inner.y + i * 20;
    let title_x = inner.x + when_len * 9 + 8;
    let room = tdiv(inner.x + (inner.width as i32) - title_x, 9);
    (y, title_x, if room > 0 { room } else { 0 })
}

/// The drawing steps of the appointments `evs` inside `inner`.
pub open spec fn event_rows_ops(evs: Seq<(Seq<char>, Seq<char>)>, inner: Rect) -> Seq<OpView>
    decreases evs.len(),
{
    if evs.len() == 0 {
        seq![]
    } else {
        let i = evs.len() - 1;
        let (y, title_x, chars) = event_row_layout(inner, i, evs.last().0.len() as int);
        event_rows_ops(evs.drop_last(), inner) + seq![
            text_at(evs.last().0, inner.x as int, y, Font::Latin9x15Bold),
            text_at(truncated(evs.last().1, chars), title_x, y, Font::Latin9x15),
        ]
    }
}

/// The calendar block's drawing steps: the panel titled `CALENDAR`, then the
/// status line when there are no appointments, or one row per appointment.
pub open spec fn calendar_ops(v: CalendarView) -> Seq<OpView> {
    let inner = inner_rect(v.bounds);
    panel_ops(v.bounds, "CALENDAR"@) + if v.events.len() == 0 {
        seq![text_at(v.status, inner.x as int, inner.y + 4, Font::Latin9x15)]
    } else {
        event_rows_ops(v.events, inner)
    }
}

/// The block's coordinates stay within `i32`.
pub open spec fn calendar_fits(v: CalendarView) -> bool {
    let inner = inner_rect(v.bounds);
    &&& panel_fits(v.bounds)
    &&& v.events.len() <= MAX_EVENTS
    &&& fits(inner.y + 4)
    &&& fits(inner.x + (inner.width as i32))
    &&& forall|i: int| 0 <= i < v.events.len() ==> {
        let n = (#[trigger] v.events[i]).0.len() as int;
        let (y, title_x, chars) = event_row_layout(inner, i, n);
        &&& fits(y)
        &&& fits(n * 9)
        &&& fits(inner.x + n * 9)
        &&& fits(title_x)
        &&& fits(inner.x + (inner.width as i32) - title_x)
    }
}

impl CalendarModule {
    /// Draws the block: the panel titled `CALENDAR`, then the status line
    /// when there are no appointments, or one 20px row per appointment with
    /// the day/time in bold and the title clipped to the remaining width.
    pub fn render(&self) -> (r: Vec<DrawOp>)
        requires
            calendar_fits(self@),
        ensures
            ops_view(r@) == calendar_ops(self@),
    {
        let mut ops: Vec<DrawOp> = Vec::new();
        let inner = draw_panel(&mut ops, self.bounds, "CALENDAR");
        let ghost head = ops_view(ops@);
        let ix = inner.x;
        let iy = inner.y;
        let iw = #[verifier::truncate] (inner.width as i32);
        if self.events.len() == 0 {
            emit_text(&mut ops, owned(self.status.as_str()), ix, iy + 4, Font::Latin9x15);
            assert(ops_view(ops@) =~= calendar_ops(self@));
            return ops;
        }
        let ghost ev = events_view(self.events@);
        let mut i: usize = 0;
        assert(head =~= ops_view(ops@) + event_rows_ops(ev.take(0), inner));
        while i < self.events.len()
            invariant
                i <= self.events.len(),
                self.events.len() <= MAX_EVENTS,
                ev == events_view(self.events@),
                ev.len() == self.events.len(),
                calendar_fits(self@),
                self@.events == ev,
                inner == inner_rect(self@.bounds),
                ix == inner.x,
                iy == inner.y,
                iw == (inner.width as i32),
                ops_view(ops@) == head + event_rows_ops(ev.take(i as int), inner),
            decreases self.events.len() - i,
        {
            let e = &self.events[i];
            assert(ev[i as int] == (e.when@, e.title@));
            let n = str_chars(e.when.as_str()).len();
            let ghost lay = event_row_layout(inner, i as int, n as int);
            assert(fits(lay.0));
            let y = iy + (i as i32) * 20;
            let title_x = ix + (n as i32) * 9 + 8;
            let room = (ix + iw - title_x) / 9;
            let title_chars: usize = if room > 0 { room as usize } else { 0 };
            emit_text(&mut ops, owned(e.when.as_str()), ix, y, Font::Latin9x15Bold);
            emit_text(&mut ops, truncate(e.title.as_str(), title_chars), title_x, y, Font::Latin9x15);
            assert(ev.take(i + 1).drop_last() =~= ev.take(i as int));
            assert(ev.take(i + 1).last() == ev[i as int]);
            assert(ops_view(ops@) =~= head + event_rows_ops(ev.take(i + 1), inner));
            i = i + 1;
        }
        assert(ev.take(self.events.len() as int) =~= ev);
        ops
    }
}


/// Whether every date an item's line is built from names a month (what
/// [`CalendarModule::load`] needs).
pub fn item_dates_valid(it: &CalendarItem) -> (r: bool)
    ensures
        r == item_dates_ok(it@),
{
    match &it.start_date_time {
        Some(dt) => {
            let date = match str_get(dt.as_str(), 0, 10) {
                Some(t) => t,
                None => "",
            };
            proof {
                reveal_strlit("");
            }
            has_weekday(date)
        },
        None => match &it.start_date {
            Some(d) => {
                if !has_weekday(d.as_str()) {
                    return false;
                }
                match &it.end_date {
                    Some(e0) => {
                        let e = prev_day(e0.as_str());
                        !str_less(d.as_str(), e.as_str()) || has_weekday(e.as_str())
                    },
                    None => true,
                }
            },
            None => true,
        },
    }
}


impl CalendarModule {
    /// Whether the block's coordinates stay within `i32` (what `render`
    /// needs).
    pub fn can_render(&self) -> (r: bool)
        ensures
            r == calendar_fits(self@),
    {
        if !panel_can_draw(self.bounds) || self.events.len() > MAX_EVENTS {
            return false;
        }
        let inner = crate::geometry::panel_inner(self.bounds);
        let ix = inner.x as i64;
        let iy = inner.y as i64;
        let iw = #[verifier::truncate] (inner.width as i32) as i64;
        if !(fits64(iy + 4) && fits64(ix + iw)) {
            return false;
        }
        let ghost ev = events_view(self.events@);
        let mut i: usize = 0;
        while i < self.events.len()
            invariant
                i <= self.events.len(),
                self.events.len() <= MAX_EVENTS,
                ev == events_view(self.events@),
                ev == self@.events,
                inner == inner_rect(self@.bounds),
                ix == inner.x,
                iy == inner.y,
                iw == (inner.width as i32),
                forall|k: int| 0 <= k < i ==> {
                    let n = (#[trigger] ev[k]).0.len() as int;
                    let (y, title_x, chars) = event_row_layout(inner, k, n);
                    &&& fits(y)
                    &&& fits(n * 9)
                    &&& fits(inner.x + n * 9)
                    &&& fits(title_x)
                    &&& fits(inner.x + (inner.width as i32) - title_x)
                },
            decreases self.events.len() - i,
        {
            let e = &self.events[i];
            assert(ev[i as int] == (e.when@, e.title@));
            let n = str_chars(e.when.as_str()).len();
            if n > 1_000_000_000 {
                return false;
            }
            let n = n as i64;
            let y = iy + (i as i64) * 20;
            let title_x = ix + n * 9 + 8;
            if !(fits64(y) && fits64(n * 9) && fits64(ix + n * 9) && fits64(title_x) && fits64(
                ix + iw - title_x,
            )) {
                return false;
            }
            i = i + 1;
        }
        true
    }
}

}
