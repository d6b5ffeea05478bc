use epd_dashboard::body::{ResponseBody, BODY_CAP};
use epd_dashboard::calendar::{bearer, CalendarItem, CalendarModule, EventsOutcome, GcalConfig};
use epd_dashboard::dates::Tm;
use epd_dashboard::draw::{draw_panel, DrawOp};
use epd_dashboard::geometry::{is_changed, pack_region, panel_inner, partial_window, Rect, Window};
use epd_dashboard::header::{is_slow_tick, next_tick, HeaderModule};
use epd_dashboard::weather::{
    chart_hours, current_hour_index, decode_wmo, hour_label, wmo_text, IconKind, WeatherSlot,
};

fn gcal(refresh: &str, calendar_id: &str) -> GcalConfig {
    GcalConfig {
        client_id: "id".to_string(),
        client_secret: "sec".to_string(),
        refresh_token: refresh.to_string(),
        calendar_id: calendar_id.to_string(),
    }
}

fn item(summary: Option<&str>, dt: Option<&str>, start: Option<&str>, end: Option<&str>) -> CalendarItem {
    CalendarItem {
        summary: summary.map(|s| s.to_string()),
        start_date_time: dt.map(|s| s.to_string()),
        start_date: start.map(|s| s.to_string()),
        end_date: end.map(|s| s.to_string()),
    }
}

fn cal() -> CalendarModule {
    CalendarModule::new(Rect::new(2, 348, 396, 130), gcal("tok", ""))
}

#[test]
fn unconfigured_calendar_says_so() {
    let m = CalendarModule::new(Rect::new(2, 348, 396, 130), gcal("", ""));
    assert!(!m.is_configured());
    assert_eq!(m.status(), "Google Calendar not configured (see .secret)");
    assert_eq!(m.signature(), "!Google Calendar not configured (see .secret)");
    let c = cal();
    assert!(c.is_configured());
    assert_eq!(c.status(), "Loading...");
}

#[test]
fn calendar_rows() {
    let mut m = cal();
    let items = vec![
        item(Some("Dentist"), Some("2026-08-24T14:30:00+02:00"), None, None),
        item(Some("Holiday"), None, Some("2026-08-28"), Some("2026-08-31")),
        item(Some("Fair"), None, Some("2026-09-01"), Some("2026-09-02")),
        item(None, None, None, None),
    ];
    assert_eq!(m.load(&items, "2026-08-20"), Ok(()));
    let ev = m.events();
    assert_eq!(ev.len(), 4);
    assert_eq!(ev[0].when, "Mon 24 14:30");
    assert_eq!(ev[0].title, "Dentist");
    assert_eq!(ev[1].when, "Fri 28 - Sun 30");
    assert_eq!(ev[2].when, "Tue 1 Sep");
    assert_eq!(ev[3].when, "");
    assert_eq!(ev[3].title, "(no title)");
    assert_eq!(m.status(), "");
    assert_eq!(
        m.signature(),
        "Mon 24 14:30|Dentist;Fri 28 - Sun 30|Holiday;Tue 1 Sep|Fair;|(no title);"
    );
}

#[test]
fn calendar_shows_five_events_at_most() {
    let mut m = cal();
    let items: Vec<CalendarItem> = (0..7)
        .map(|i| item(Some(&format!("E{i}")), Some("2026-08-21T08:00:00Z"), None, None))
        .collect();
    m.load(&items, "2026-08-20").unwrap();
    assert_eq!(m.events().len(), 5);
    assert_eq!(m.events()[4].title, "E4");
}

#[test]
fn empty_calendar_status() {
    let mut m = cal();
    m.load(&Vec::new(), "2026-08-20").unwrap();
    assert_eq!(m.status(), "No upcoming events");
    assert_eq!(m.signature(), "!No upcoming events");
}

#[test]
fn calendar_token_cycle() {
    let mut m = cal();
    assert!(m.wants_token(false));
    m.token_result(Some("abc".to_string()));
    assert!(!m.wants_token(false));
    assert!(m.wants_token(true));
    let t = m.take_token().unwrap();
    assert_eq!(t, "abc");
    m.events_result(t, EventsOutcome::Failed, "2026-08-20");
    assert_eq!(m.status(), "Calendar unavailable");
    assert!(m.wants_token(false));
    m.token_result(None);
    assert_eq!(m.status(), "Calendar auth failed");
    m.token_result(Some("def".to_string()));
    let t = m.take_token().unwrap();
    m.events_result(t, EventsOutcome::Unreadable, "2026-08-20");
    assert_eq!(m.status(), "Calendar parse error");
    assert!(!m.wants_token(false));
}

#[test]
fn calendar_requests() {
    let m = CalendarModule::new(Rect::new(0, 0, 100, 100), gcal("r", "me@example.com"));
    assert_eq!(
        m.token_request_body(),
        "client_id=id&client_secret=sec&refresh_token=r&grant_type=refresh_token"
    );
    assert_eq!(
        m.events_url("2026-08-20T12:00:00Z"),
        "https://www.googleapis.com/calendar/v3/calendars/me%40example.com/events?singleEvents=true&orderBy=startTime&maxResults=6&timeMin=2026-08-20T12:00:00Z&fields=items(summary,start,end)"
    );
    let p = cal();
    assert!(p.events_url("T").starts_with("https://www.googleapis.com/calendar/v3/calendars/primary/events?"));
    assert_eq!(bearer("xyz"), "Bearer xyz");
}

#[test]
fn calendar_drawing() {
    let mut m = cal();
    let items = vec![item(Some("A very long appointment title that will not fit"), Some("2026-08-24T14:30:00+02:00"), None, None)];
    m.load(&items, "2026-08-20").unwrap();
    let ops = m.render();
    assert_eq!(ops.len(), 5);
    match (&ops[3], &ops[4]) {
        (DrawOp::Text { text: when, x: wx, y: wy, .. }, DrawOp::Text { text: title, x: tx, y: ty, .. }) => {
            assert_eq!(when, "Mon 24 14:30");
            assert_eq!((*wx, *wy), (10, 371));
            // 12 characters of 9 px plus 8 px.
            assert_eq!((*tx, *ty), (126, 371));
            // (10 + 380 - 126) / 9 = 29 characters.
            assert_eq!(title, "A very long appointment ti...");
        }
        _ => panic!("expected two texts"),
    }
}

#[test]
fn panel_geometry() {
    let b = Rect::new(2, 56, 396, 152);
    assert_eq!(panel_inner(b), Rect::new(10, 79, 380, 122));
    let mut ops = Vec::new();
    let inner = draw_panel(&mut ops, b, "CURRENT WEATHER");
    assert_eq!(inner, Rect::new(10, 79, 380, 122));
    assert_eq!(ops.len(), 3);
}

#[test]
fn partial_windows_are_byte_aligned() {
    let w = partial_window(Rect::new(402, 269, 396, 209)).unwrap();
    assert_eq!(w.x, 400);
    assert_eq!(w.width, 400);
    assert_eq!(w.byte_x, 50);
    assert_eq!(w.row_bytes, 50);
    assert_eq!(w.y, 269);
    assert_eq!(w.len, 50 * 209);
    let w = partial_window(Rect::new(-5, -3, 10, 2)).unwrap();
    assert_eq!((w.x, w.y, w.width, w.byte_x, w.row_bytes), (0, 0, 16, 0, 2));
    assert!(partial_window(Rect::new(0, 0, 0, 5)).is_none());
    assert!(partial_window(Rect::new(0, 0, 5, 0)).is_none());
}

#[test]
fn region_packing() {
    let full: Vec<u8> = (0..40u8).collect();
    let w = Window { x: 8, y: 1, width: 16, height: 2, byte_x: 1, row_bytes: 2, len: 4 };
    let mut buf = vec![9u8; 7];
    pack_region(&mut buf, &full, 10, &w);
    assert_eq!(buf, vec![11, 12, 21, 22]);
    assert!(is_changed(&[false, true], 1));
    assert!(!is_changed(&[false, true], 0));
    assert!(!is_changed(&[true], 3));
}

#[test]
fn header_fields() {
    let mut h = HeaderModule::new(Rect::new(0, 0, 800, 52));
    assert_eq!(h.date(), "--");
    assert_eq!(h.time(), "--:--");
    assert_eq!(h.ip_label(), "IP 0.0.0.0");
    h.set_ip("192.168.1.7".to_string());
    let now = Tm { tm_sec: 0, tm_min: 5, tm_hour: 9, tm_mday: 20, tm_mon: 7, tm_year: 126, tm_wday: 4, tm_yday: 0, tm_isdst: 1 };
    assert!(!h.update(&now, false));
    assert!(h.update(&now, true));
    assert_eq!(h.date(), "Thu, 20 Aug 2026");
    assert_eq!(h.time(), "09:05");
    let ops = h.render();
    assert_eq!(ops.len(), 4);
    match &ops[2] {
        DrawOp::Text { text, x, y, .. } => {
            assert_eq!(text, "IP 192.168.1.7");
            assert_eq!((*x, *y), (790, 18));
        }
        _ => panic!("expected the address"),
    }
    assert!(matches!(ops[3], DrawOp::Line { x0: 0, y0: 51, x1: 799, y1: 51, width: 2 }));
}

#[test]
fn loop_cadence() {
    assert!(is_slow_tick(0));
    assert!(!is_slow_tick(1));
    assert!(is_slow_tick(30));
    assert!(is_slow_tick(60));
    assert_eq!(next_tick(5), 6);
    assert_eq!(next_tick(u32::MAX), 0);
}

#[test]
fn weather_labels() {
    assert_eq!(wmo_text(0), "Clear sky");
    assert_eq!(wmo_text(48), "Fog");
    assert_eq!(wmo_text(96), "Thunderstorm, hail");
    assert_eq!(wmo_text(4), "Unknown");
    assert_eq!(decode_wmo(2), "Partly Cloudy");
    assert_eq!(decode_wmo(98), "Thunderstorm");
    assert_eq!(decode_wmo(56), "Unknown");
    assert!(IconKind::from_wmo(1) == IconKind::Clear);
    assert!(IconKind::from_wmo(57) == IconKind::Rain);
    assert!(IconKind::from_wmo(77) == IconKind::Snow);
    assert!(IconKind::from_wmo(99) == IconKind::Thunder);
    assert!(IconKind::from_wmo(100) == IconKind::Cloudy);
}

#[test]
fn current_hour_lookup() {
    let times: Vec<String> = ["2026-08-20T12:00", "2026-08-20T13:00", "2026-08-20T14:00"]
        .iter()
        .map(|s| s.to_string())
        .collect();
    assert_eq!(current_hour_index(Some("2026-08-20T13:45"), &times), 1);
    assert_eq!(current_hour_index(Some("2026-08-21T13:45"), &times), 0);
    assert_eq!(current_hour_index(Some("short"), &times), 0);
    assert_eq!(current_hour_index(None, &times), 0);
}

#[test]
fn one_weather_request_per_tick() {
    let mut slot = WeatherSlot::new(true);
    assert!(slot.claim_fetch());
    assert!(!slot.claim_fetch());
    assert!(!slot.hands_out());
    let mut ok = WeatherSlot::new(true);
    assert!(ok.claim_fetch());
    ok.record_success();
    assert!(ok.hands_out());
    assert!(!ok.claim_fetch());
    let mut fast = WeatherSlot::new(false);
    assert!(!fast.claim_fetch());
    assert!(!fast.hands_out());
}

#[test]
fn chart_window_and_hour_labels() {
    assert_eq!(chart_hours(0, 96), Some(24));
    assert_eq!(chart_hours(80, 96), Some(16));
    assert_eq!(chart_hours(94, 96), Some(2));
    assert_eq!(chart_hours(95, 96), None);
    assert_eq!(chart_hours(120, 96), None);
    let times: Vec<String> = ["2026-08-20T12:00", "bad", "2026-08-20T14:00"]
        .iter()
        .map(|s| s.to_string())
        .collect();
    assert_eq!(hour_label(&times, 0), "12");
    assert_eq!(hour_label(&times, 1), "--");
    assert_eq!(hour_label(&times, 2), "14");
    assert_eq!(hour_label(&times, 3), "--");
}

#[test]
fn response_body_is_capped_and_decoded() {
    let mut body = ResponseBody::new();
    assert!(body.take_chunk("grüß ".as_bytes()));
    assert!(body.take_chunk(b"dich"));
    assert!(!body.take_chunk(b""));
    assert_eq!(body.text(), "grüß dich");
    let mut broken = ResponseBody::new();
    assert!(broken.take_chunk(&[b'a', 0xff, b'b']));
    assert_eq!(broken.text(), "a\u{fffd}b");
    let mut big = ResponseBody::new();
    let chunk = [b'x'; 1024];
    let mut reads = 0;
    while big.take_chunk(&chunk) {
        reads += 1;
    }
    // 256 reads fill the cap exactly; the 257th passes it and ends the body.
    assert_eq!(reads, BODY_CAP / 1024);
    assert_eq!(big.text().len(), BODY_CAP + 1024);
}
