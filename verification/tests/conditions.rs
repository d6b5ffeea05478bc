use epd_dashboard::conditions::{
    CurrentReading, CurrentWeatherModule, DailyForecastModule, DailyReading, DayForecast,
};
use epd_dashboard::draw::{DrawOp, Font, GlyphKind, HAlign};
use epd_dashboard::geometry::Rect;
use epd_dashboard::weather::IconKind;

fn text_of(op: &DrawOp) -> Option<(&str, i32, i32)> {
    match op {
        DrawOp::Text { text, x, y, .. } => Some((text.as_str(), *x, *y)),
        _ => None,
    }
}

fn full_reading() -> CurrentReading {
    CurrentReading {
        code: 2,
        temperature: "21.5".to_string(),
        feels: Some("20".to_string()),
        high: Some("24".to_string()),
        low: Some("12".to_string()),
        humidity: Some("65".to_string()),
        wind_speed: Some("12".to_string()),
        wind_octant: Some(5),
        rain_chance: Some(40),
        uv: Some("3".to_string()),
        sunrise: Some("2026-08-20T06:12".to_string()),
        sunset: Some("2026-08-20T20:45".to_string()),
        sunshine: Some("7.5".to_string()),
    }
}

fn empty_reading() -> CurrentReading {
    CurrentReading {
        code: 200,
        temperature: "0.0".to_string(),
        feels: None,
        high: Some("24".to_string()),
        low: None,
        humidity: None,
        wind_speed: None,
        wind_octant: Some(3),
        rain_chance: None,
        uv: None,
        sunrise: None,
        sunset: None,
        sunshine: None,
    }
}

fn current() -> CurrentWeatherModule {
    CurrentWeatherModule::new(Rect::new(2, 56, 396, 152), "https://weather.example".to_string())
}

#[test]
fn current_weather_is_loading_until_a_reading_arrives() {
    let mut m = current();
    assert_eq!(m.url(), "https://weather.example");
    assert!(!m.update(None));
    assert!(m.can_render());
    let ops = m.render();
    assert_eq!(ops.len(), 4);
    assert!(matches!(ops[0], DrawOp::Frame { rect: Rect { x: 2, y: 56, width: 396, height: 152 }, width: 1 }));
    assert_eq!(text_of(&ops[1]), Some(("CURRENT WEATHER", 9, 61)));
    assert_eq!(text_of(&ops[3]), Some(("Loading...", 10, 99)));
}

#[test]
fn current_weather_lays_out_headline_and_stat_grid() {
    let mut m = current();
    assert!(m.update(Some(full_reading())));
    assert!(m.can_render());
    let ops = m.render();
    assert_eq!(ops.len(), 3 + 4 + 14);
    assert!(matches!(ops[3], DrawOp::Icon { icon: IconKind::PartlyCloudy, x: 10, y: 79, size: 54 }));
    match &ops[4] {
        DrawOp::Text { text, x, y, font, .. } => {
            assert_eq!((text.as_str(), *x, *y), ("21.5\u{b0}C", 74, 79));
            assert_eq!(*font, Font::Latin10x20);
        }
        _ => panic!("temperature expected"),
    }
    assert_eq!(text_of(&ops[5]), Some(("Partly cloudy", 74, 101)));
    assert_eq!(text_of(&ops[6]), Some(("Feels 20\u{b0}  H 24\u{b0} L 12\u{b0}", 74, 119)));
    let cells: Vec<(GlyphKind, i32, i32, &str, i32)> = ops[7..]
        .chunks(2)
        .map(|pair| match (&pair[0], &pair[1]) {
            (DrawOp::Glyph { glyph, x, y, size: 14 }, DrawOp::Text { text, x: tx, y: ty, .. }) => {
                assert_eq!(*ty, *y);
                (*glyph, *x, *y, text.as_str(), *tx)
            }
            _ => panic!("glyph and value expected"),
        })
        .collect();
    assert_eq!(
        cells,
        vec![
            (GlyphKind::Humidity, 10, 135, "65%", 30),
            (GlyphKind::Wind, 200, 135, "12 km/h SW", 220),
            (GlyphKind::Rain, 10, 151, "40%", 30),
            (GlyphKind::Uv, 200, 151, "3", 220),
            (GlyphKind::Sunrise, 10, 167, "06:12h", 30),
            (GlyphKind::Sunset, 200, 167, "20:45h", 220),
            (GlyphKind::Sunshine, 10, 183, "7.5h", 30),
        ]
    );
}

#[test]
fn current_weather_shows_dashes_for_missing_values() {
    let mut m = current();
    assert!(m.update(Some(empty_reading())));
    let ops = m.render();
    assert!(matches!(ops[3], DrawOp::Icon { icon: IconKind::Cloudy, .. }));
    assert_eq!(text_of(&ops[5]), Some(("Unknown", 74, 101)));
    // Feels-like missing, and high/low only shown with both values.
    assert_eq!(text_of(&ops[6]), Some(("  ", 74, 119)));
    let values: Vec<&str> = ops[7..].iter().filter_map(text_of).map(|t| t.0).collect();
    assert_eq!(values, vec!["--", "--", "--", "--", "--", "--", "--"]);
}

#[test]
fn current_weather_wind_without_bearing_and_wrapping_bearings() {
    let mut r = full_reading();
    r.wind_octant = None;
    let mut m = current();
    m.update(Some(r));
    assert_eq!(text_of(&m.render()[10]), Some(("12 km/h", 220, 135)));
    for (octant, label) in [(8, "12 km/h N"), (-1, "12 km/h NW"), (2, "12 km/h E")] {
        let mut r = full_reading();
        r.wind_octant = Some(octant);
        m.update(Some(r));
        assert_eq!(text_of(&m.render()[10]), Some((label, 220, 135)));
    }
}

#[test]
fn current_weather_keeps_its_reading_without_a_new_one() {
    let mut m = current();
    m.update(Some(full_reading()));
    assert!(!m.update(None));
    assert_eq!(text_of(&m.render()[4]), Some(("21.5\u{b0}C", 74, 79)));
}

#[test]
fn current_weather_rejects_rectangles_out_of_range() {
    let mut m = CurrentWeatherModule::new(Rect::new(0, i32::MAX - 100, 396, 152), String::new());
    assert!(m.can_render());
    m.update(Some(full_reading()));
    assert!(!m.can_render());
}

fn day(date: &str, code: Option<u16>, chance: Option<u8>) -> DayForecast {
    DayForecast {
        date: date.to_string(),
        code,
        high: "25".to_string(),
        low: "14".to_string(),
        rain_chance: chance,
        rain_mm: "1.2".to_string(),
        sunshine: "6".to_string(),
    }
}

fn daily() -> DailyForecastModule {
    DailyForecastModule::new(Rect::new(2, 212, 396, 132), "https://weather.example".to_string())
}

#[test]
fn forecast_is_loading_then_reports_missing_daily_part() {
    let mut m = daily();
    let ops = m.render();
    assert_eq!(ops.len(), 4);
    assert_eq!(text_of(&ops[1]), Some(("3-DAY FORECAST", 9, 217)));
    match &ops[3] {
        DrawOp::Text { text, x, y, align, .. } => {
            assert_eq!((text.as_str(), *x, *y, *align), ("Loading...", 10, 255, HAlign::Center));
        }
        _ => panic!("status expected"),
    }
    assert!(m.update(Some(DailyReading { days: None })));
    let ops = m.render();
    assert_eq!(text_of(&ops[3]), Some(("No data", 10, 255)));
}

#[test]
fn forecast_shows_the_three_days_after_today() {
    let mut m = daily();
    let days = vec![
        day("2026-08-20", Some(0), Some(5)),
        day("2026-08-21", Some(61), Some(70)),
        day("2026-08-22", None, None),
        day("2026-08-23", Some(95), Some(90)),
        day("2026-08-24", Some(0), Some(0)),
    ];
    assert!(m.update(Some(DailyReading { days: Some(days) })));
    assert!(m.can_render());
    let ops = m.render();
    assert_eq!(ops.len(), 3 + 9 + 10 + 10);
    // First column: no divider.
    assert_eq!(text_of(&ops[3]), Some(("Fri", 73, 235)));
    assert!(matches!(ops[4], DrawOp::Icon { icon: IconKind::Rain, x: 54, y: 248, size: 38 }));
    assert_eq!(text_of(&ops[5]), Some(("25\u{b0}/14\u{b0}", 73, 287)));
    assert!(matches!(ops[6], DrawOp::Glyph { glyph: GlyphKind::Rain, x: 18, y: 305, size: 12 }));
    assert_eq!(text_of(&ops[7]), Some(("70%", 32, 306)));
    assert!(matches!(ops[8], DrawOp::Glyph { glyph: GlyphKind::Millimeters, x: 70, y: 305, size: 12 }));
    assert_eq!(text_of(&ops[9]), Some(("1.2mm", 84, 306)));
    assert!(matches!(ops[10], DrawOp::Glyph { glyph: GlyphKind::Sunshine, x: 44, y: 319, size: 12 }));
    assert_eq!(text_of(&ops[11]), Some(("6h", 58, 320)));
    // Second column: divider, unknown code shows a cloud, no chance shows 0%.
    assert!(matches!(ops[12], DrawOp::Line { x0: 136, y0: 235, x1: 136, y1: 333, width: 1 }));
    assert_eq!(text_of(&ops[13]), Some(("Sat", 199, 235)));
    assert!(matches!(ops[14], DrawOp::Icon { icon: IconKind::Cloudy, x: 180, .. }));
    assert_eq!(text_of(&ops[17]), Some(("0%", 158, 306)));
    // Third column.
    assert!(matches!(ops[22], DrawOp::Line { x0: 262, .. }));
    assert_eq!(text_of(&ops[23]), Some(("Sun", 325, 235)));
    assert!(matches!(ops[24], DrawOp::Icon { icon: IconKind::Thunder, .. }));
}

#[test]
fn forecast_with_few_days_shows_fewer_columns() {
    let mut m = daily();
    m.update(Some(DailyReading { days: Some(vec![day("2026-08-20", Some(0), None)]) }));
    assert_eq!(m.render().len(), 3);
    m.update(Some(DailyReading {
        days: Some(vec![day("2026-08-20", Some(0), None), day("2026-08-21", Some(3), None)]),
    }));
    let ops = m.render();
    assert_eq!(ops.len(), 3 + 9);
    assert_eq!(text_of(&ops[3]), Some(("Fri", 73, 235)));
}

#[test]
fn forecast_needs_a_month_in_every_shown_date() {
    let mut m = daily();
    m.update(Some(DailyReading {
        days: Some(vec![day("today", None, None), day("2026-13-01", None, None)]),
    }));
    assert!(!m.can_render());
    // Today's date is never shown, so it need not be valid.
    m.update(Some(DailyReading {
        days: Some(vec![day("today", None, None), day("2026-12-01", None, None)]),
    }));
    assert!(m.can_render());
}
