use epd_dashboard::dates::Tm;
use epd_dashboard::departures::{hhmm_db, DbConfig, DeparturesModule};
use epd_dashboard::draw::{DrawOp, Font, HAlign, Ink, VAlign};
use epd_dashboard::geometry::Rect;

const PLAN: &str = "<timetable station=\"Erlangen-Bruck\"><s id=\"111-2608201630-1\"><tl c=\"S\"/><dp pt=\"2608201632\" pp=\"1\" l=\"S1\" ppth=\"Erlangen|Fürth|Nürnberg Hbf\"/></s><s id=\"222-2608201640-1\"><ar pt=\"2608201640\"/></s><s id=\"333-2608201600-1\"><dp pt=\"2608201600\" l=\"S 1\" ppth=\"A|B\"/></s><s id=\"444\"><dp pt=\"2608201645\" l=\" S2 \" ppth=\"Hbf \"/></s></timetable>";

const NEXT_HOUR: &str = "<timetable><s id=\"444\"><dp pt=\"2608201645\" l=\"S2\" ppth=\"Hbf\"/></s><s id=\"555\"><dp pt=\"2608201710\" l=\"\" ppth=\"\"/></s></timetable>";

const CHANGES: &str = "<timetable><s id=\"444\"><dp ct=\"2608201650\"/></s><s id=\"111-2608201630-1\"><dp ct=\"2608201632\" cs=\"c\"/></s></timetable>";

fn cfg() -> DbConfig {
    DbConfig {
        base: "https://db.example/timetables/v1".to_string(),
        eva: "8001234".to_string(),
        client_id: "cid".to_string(),
        api_key: "key".to_string(),
    }
}

fn module() -> DeparturesModule {
    DeparturesModule::new(Rect::new(402, 269, 396, 209), "Erlangen-Bruck", cfg())
}

#[test]
fn new_board_is_loading() {
    let m = module();
    assert_eq!(m.signature(), "!Loading...");
    assert!(m.rows().is_empty());
}

#[test]
fn board_merges_changes_filters_and_sorts() {
    let mut m = module();
    assert_eq!(m.load(&[PLAN, NEXT_HOUR], CHANGES, "2608201610"), Ok(()));
    let rows = m.rows();
    assert_eq!(rows.len(), 3);
    assert_eq!(rows[0].line, "S1");
    assert_eq!(rows[0].dest, "Nürnberg Hbf");
    assert_eq!(rows[0].planned, "16:32");
    assert_eq!(rows[0].actual, "16:32");
    assert!(rows[0].cancelled);
    assert!(!rows[0].delayed);
    assert_eq!(rows[1].line, "S2");
    assert_eq!(rows[1].dest, "Hbf");
    assert_eq!(rows[1].planned, "16:45");
    assert_eq!(rows[1].actual, "16:50");
    assert!(rows[1].delayed);
    assert_eq!(rows[2].line, "?");
    assert_eq!(rows[2].dest, "-");
    assert_eq!(rows[2].planned, "17:10");
    assert!(m.status().is_none());
    assert_eq!(
        m.signature(),
        "S1|Nürnberg Hbf|16:32|16:32|01;S2|Hbf|16:45|16:50|10;?|-|17:10|17:10|00;"
    );
}

#[test]
fn departed_trains_are_dropped() {
    let mut m = module();
    m.load(&[PLAN], CHANGES, "2608201700").unwrap();
    assert!(m.rows().is_empty());
    assert_eq!(m.status().map(|s| s.as_str()), Some("No departures"));
    assert_eq!(m.signature(), "!No departures");
}

#[test]
fn board_keeps_at_most_six_rows_in_time_order() {
    let mut plan = String::from("<timetable>");
    for i in 0..9 {
        let minute = 59 - i;
        plan.push_str(&format!(
            "<s id=\"t{i}\"><dp pt=\"26082016{minute:02}\" l=\"S{i}\" ppth=\"X|Stop{i}\"/></s>"
        ));
    }
    plan.push_str("</timetable>");
    let mut m = module();
    m.load(&[plan.as_str()], "", "2608201600").unwrap();
    let rows = m.rows();
    assert_eq!(rows.len(), 6);
    let keys: Vec<&str> = rows.iter().map(|r| r.sort_key.as_str()).collect();
    assert_eq!(
        keys,
        vec!["2608201651", "2608201652", "2608201653", "2608201654", "2608201655", "2608201656"]
    );
    assert_eq!(rows[0].line, "S8");
}

#[test]
fn equal_times_keep_document_order() {
    let plan = "<s id=\"a\"><dp pt=\"2608201620\" l=\"A\"/></s><s id=\"b\"><dp pt=\"2608201610\" l=\"B\"/></s><s id=\"c\"><dp pt=\"2608201620\" l=\"C\"/></s>";
    let mut m = module();
    m.load(&[plan], "", "2608201600").unwrap();
    let lines: Vec<&str> = m.rows().iter().map(|r| r.line.as_str()).collect();
    assert_eq!(lines, vec!["B", "A", "C"]);
}

#[test]
fn unclosed_trip_runs_to_end() {
    let plan = "<s id=\"x\"><dp pt=\"2608201620\" l=\"S3\" ppth=\"Forchheim\"/>";
    let mut m = module();
    m.load(&[plan], "", "2608201600").unwrap();
    assert_eq!(m.rows().len(), 1);
    assert_eq!(m.rows()[0].dest, "Forchheim");
}

#[test]
fn short_stamps_show_dashes() {
    assert_eq!(hhmm_db("2608201632"), "16:32");
    assert_eq!(hhmm_db("123"), "--:--");
}

#[test]
fn request_urls() {
    let m = module();
    let tm = Tm {
        tm_sec: 0,
        tm_min: 12,
        tm_hour: 9,
        tm_mday: 3,
        tm_mon: 0,
        tm_year: 126,
        tm_wday: 6,
        tm_yday: 2,
        tm_isdst: 0,
    };
    assert_eq!(m.plan_url(&tm), "https://db.example/timetables/v1/plan/8001234/260103/09");
    assert_eq!(m.changes_url(), "https://db.example/timetables/v1/fchg/8001234");
    assert_eq!(m.credentials(), ("cid", "key"));
}

fn text_of(op: &DrawOp) -> Option<(&str, i32, i32)> {
    match op {
        DrawOp::Text { text, x, y, .. } => Some((text.as_str(), *x, *y)),
        _ => None,
    }
}

#[test]
fn board_drawing() {
    let mut m = module();
    m.load(&[PLAN], CHANGES, "2608201610").unwrap();
    let ops = m.render();
    // Panel: frame, title, separator.
    assert!(matches!(ops[0], DrawOp::Frame { rect: Rect { x: 402, y: 269, width: 396, height: 209 }, width: 1 }));
    assert_eq!(text_of(&ops[1]), Some(("S-BAHN - Erlangen-Bruck", 409, 274)));
    assert!(matches!(ops[2], DrawOp::Line { x0: 402, y0: 287, x1: 797, y1: 287, width: 1 }));
    // First row: cancelled S1 (badge, line, planned, strike, box, "ausf.", destination).
    assert!(matches!(ops[3], DrawOp::RoundedBox { rect: Rect { x: 410, y: 294, width: 30, height: 18 }, radius: 4 }));
    match &ops[4] {
        DrawOp::Text { text, x, y, font, align, baseline, ink } => {
            assert_eq!(text, "S1");
            assert_eq!((*x, *y), (425, 303));
            assert_eq!(*font, Font::Latin9x15Bold);
            assert_eq!(*align, HAlign::Center);
            assert_eq!(*baseline, VAlign::Middle);
            assert_eq!(*ink, Ink::White);
        }
        _ => panic!("expected the line label"),
    }
    // Inner width 380, cluster 106 wide: starts at 410 + 380 - 106 = 684.
    assert_eq!(text_of(&ops[5]), Some(("16:32", 684, 303)));
    assert!(matches!(ops[6], DrawOp::Line { x0: 684, y0: 303, x1: 729, y1: 303, width: 1 }));
    assert!(matches!(ops[7], DrawOp::RoundedBox { rect: Rect { x: 737, y: 294, width: 53, height: 18 }, radius: 4 }));
    assert_eq!(text_of(&ops[8]), Some(("ausf.", 763, 303)));
    // Destination from 410 + 30 + 8 = 448, room 684 - 6 - 448 = 230 px = 25 chars.
    assert_eq!(text_of(&ops[9]), Some(("Nürnberg Hbf", 448, 303)));
    // Second row, delayed S2, 29 px lower.
    assert_eq!(text_of(&ops[14]), Some(("16:50", 763, 332)));
    assert_eq!(ops.len(), 16);
}

#[test]
fn status_drawing() {
    let m = module();
    let ops = m.render();
    assert_eq!(ops.len(), 4);
    assert_eq!(text_of(&ops[3]), Some(("Loading...", 410, 312)));
}
