use xerotop::weather::{
    glyph_for, glyph_for_lowercase, parse_weather, unit_param, weather_url, Weather,
};

#[test]
fn glyph_for_thunderstorm() {
    assert_eq!(glyph_for("Thunderstorm"), "\u{e31d}");
}

#[test]
fn glyph_for_each_group() {
    assert_eq!(glyph_for("Light sleet"), "\u{e31a}");
    assert_eq!(glyph_for("Patchy rain possible"), "\u{e318}");
    assert_eq!(glyph_for("Mist"), "\u{e313}");
    assert_eq!(glyph_for("Overcast"), "\u{e312}");
    assert_eq!(glyph_for("Sunny"), "\u{e30d}");
    assert_eq!(glyph_for("Tornado"), "\u{e371}");
    assert_eq!(glyph_for(""), "\u{e371}");
}

#[test]
fn glyph_first_group_wins() {
    // "snow" and "shower" both occur; the snow group is checked first.
    assert_eq!(glyph_for("Light snow showers"), "\u{e31a}");
    assert_eq!(glyph_for("Thundery outbreaks"), "\u{e31d}");
}

#[test]
fn glyph_ignores_case_through_lowercase() {
    assert_eq!(glyph_for("HEAVY SNOW"), "\u{e31a}");
    // The lowercase-only function sees no keyword in uppercase text.
    assert_eq!(glyph_for_lowercase("HEAVY SNOW"), "\u{e371}");
}

#[test]
fn url_for_new_york_in_fahrenheit() {
    assert_eq!(
        weather_url("  New York ", "F"),
        "https://wttr.in/New+York?format=%C|%t|%l|%f|%h|%w&u"
    );
}

#[test]
fn url_units() {
    assert_eq!(weather_url("", "auto"), "https://wttr.in/?format=%C|%t|%l|%f|%h|%w");
    assert_eq!(weather_url("Oslo", "c"), "https://wttr.in/Oslo?format=%C|%t|%l|%f|%h|%w&m");
    assert_eq!(unit_param("F"), "");
    assert_eq!(unit_param("f"), "&u");
}

#[test]
fn url_has_no_space() {
    assert!(!weather_url("Rio de Janeiro", "auto").contains(' '));
}

#[test]
fn parse_full_reply() {
    let w = parse_weather("Partly cloudy|+72°F|New York|+75°F|60%|↗5mph\n").unwrap();
    assert!(w.ok);
    assert_eq!(w.cond, "Partly cloudy");
    assert_eq!(w.temp, "+72°F");
    assert_eq!(w.icon, "\u{e312}");
    assert_eq!(w.report, "New York\nPartly cloudy  +72°F  (feels +75°F)\n60%  ·  ↗5mph");
}

#[test]
fn parse_minimal_reply() {
    let w = parse_weather(" Sunny | +20°C ").unwrap();
    assert_eq!(w.cond, "Sunny");
    assert_eq!(w.temp, "+20°C");
    assert_eq!(w.report, "Sunny  +20°C");
    assert_eq!(w.icon, "\u{e30d}");
}

#[test]
fn parse_wind_without_humidity() {
    let w = parse_weather("Fog|+5°C|||| →3km/h").unwrap();
    assert_eq!(w.report, "Fog  +5°C\n  ·  →3km/h");
}

#[test]
fn parse_refuses_bad_replies() {
    assert!(parse_weather("").is_none());
    assert!(parse_weather("  \n ").is_none());
    assert!(parse_weather("<html>Unknown location</html>").is_none());
    assert!(parse_weather("Sunny").is_none());
    assert!(parse_weather("Sunny||Oslo").is_none());
    let long = format!("Sunny|+1°C|{}", "x".repeat(200));
    assert!(parse_weather(&long).is_none());
}

#[test]
fn parse_counts_bytes_not_characters() {
    // 100 two-byte characters make 200 bytes of place: over the limit.
    let place = "é".repeat(100);
    assert!(parse_weather(&format!("Sunny|+1°C|{}", place)).is_none());
    let ok = "x".repeat(190);
    assert!(parse_weather(&format!("S|+1|{}", ok)).is_some());
}

#[test]
fn default_weather_is_empty() {
    let w = Weather::default();
    assert!(!w.ok);
    assert_eq!(w.temp, "");
    assert_eq!(w.report, "");
}
