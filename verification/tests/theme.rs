use katazome::ansi::AnsiColors;
use katazome::expr::{parse_color_expr, ColorExpr};
use katazome::resolve::{resolve_ansi, resolve_variant, ResolvedExpr};
use katazome::theme::{flatten_colors, series_from, Base, ColorsValue, Id};
use katazome::{Error, Rgb, Table};

#[test]
fn id_accepts_lowercase_alphanumeric_starting_with_a_letter() {
    assert!("akari".parse::<Id>().is_ok());
    assert!("a1".parse::<Id>().is_ok());
}

#[test]
fn id_rejects_uppercase_leading_digit_hyphen_and_empty() {
    for invalid in ["Akari", "1a", "a-b", ""] {
        let err = invalid.parse::<Id>().unwrap_err();
        assert!(matches!(err, Error::InvalidId(_)), "{invalid:?}: {}", err.message());
    }
}

#[test]
fn id_keeps_its_text() {
    let id: Id = "ninja42".parse().unwrap();
    assert_eq!(id.as_str(), "ninja42");
    let err = "Ninja".parse::<Id>().unwrap_err();
    assert!(matches!(&err, Error::InvalidId(s) if s == "Ninja"));
    assert!(err.message().contains("Ninja"));
}

#[test]
fn invalid_theme_id_format_reports_the_value() {
    let err = Id::parse("Ninja").unwrap_err();
    assert!(err.message().contains("Ninja"), "{}", err.message());
}

#[test]
fn invalid_variant_id_format_reports_the_value() {
    let err = Id::parse("Shadow").unwrap_err();
    assert!(err.message().contains("Shadow"), "{}", err.message());
}

#[test]
fn an_invalid_id_is_quoted_with_escapes() {
    assert_eq!(
        Error::InvalidId("Ninja".to_string()).message(),
        "invalid id \"Ninja\", expected [a-z][a-z0-9]*"
    );
    assert_eq!(
        Error::InvalidId("a\"b\\c\n".to_string()).message(),
        "invalid id \"a\\\"b\\\\c\\n\", expected [a-z][a-z0-9]*"
    );
}

fn rgb(v: u8) -> Rgb {
    Rgb { r: v, g: v, b: v }
}

fn text(s: &str) -> ColorsValue {
    ColorsValue::Text { text: s.to_string(), written: format!("{s:?}") }
}

#[test]
fn flatten_colors_uses_dotted_keys() {
    let entries = vec![
        (
            "lantern".to_string(),
            ColorsValue::Table(vec![
                ("mid".to_string(), text("#E26A3B")),
                ("far".to_string(), text("#D4A05A")),
            ]),
        ),
        ("life".to_string(), text("7FAF6A")),
    ];
    let table = flatten_colors(&entries).unwrap();
    assert_eq!(table.get(&"lantern.mid".to_string()), Some("#E26A3B".parse().unwrap()));
    assert_eq!(table.get(&"lantern.far".to_string()), Some("#D4A05A".parse().unwrap()));
    assert_eq!(table.get(&"life".to_string()), Some("#7FAF6A".parse().unwrap()));
    assert_eq!(table.get(&"mid".to_string()), None);
}

#[test]
fn non_hex_colors_entry_reports_the_key() {
    let entries = vec![
        ("sakura".to_string(), text("#FFB7C5")),
        ("vortex".to_string(), text("colors.sakura")),
    ];
    let err = flatten_colors(&entries).unwrap_err();
    assert!(matches!(&err, Error::ExpectedHexLiteral { key, value } if key == "colors.vortex" && value == "\"colors.sakura\""));
    assert!(err.message().contains("colors.vortex"), "{}", err.message());

    let nested = vec![(
        "deep".to_string(),
        ColorsValue::Table(vec![("n".to_string(), ColorsValue::Other("3".to_string()))]),
    )];
    let err = flatten_colors(&nested).unwrap_err();
    assert_eq!(err.message(), "colors.deep.n: expected a hex literal, found 3");
}

#[test]
fn series_must_have_eight_entries() {
    let eight: Vec<Rgb> = (0..8).map(rgb).collect();
    let arr = series_from(eight.clone()).unwrap();
    assert_eq!(arr.to_vec(), eight);

    let seven: Vec<Rgb> = (0..7).map(rgb).collect();
    let err = series_from(seven).unwrap_err();
    assert!(matches!(err, Error::SeriesLength(7)));
    assert!(err.message().contains("series"));
    assert_eq!(err.message(), "roles.series must have exactly 8 entries, found 7");
}

fn slots(start: u8) -> AnsiColors {
    AnsiColors {
        black: rgb(start),
        red: rgb(start + 1),
        green: rgb(start + 2),
        yellow: rgb(start + 3),
        blue: rgb(start + 4),
        magenta: rgb(start + 5),
        cyan: rgb(start + 6),
        white: rgb(start + 7),
    }
}

#[test]
fn ansi_entries_are_in_terminal_order() {
    let names: Vec<&str> = slots(0).entries().into_iter().map(|(n, _)| n).collect();
    assert_eq!(names, ["black", "red", "green", "yellow", "blue", "magenta", "cyan", "white"]);
    let colors: Vec<Rgb> = slots(10).entries().into_iter().map(|(_, c)| c).collect();
    assert_eq!(colors, (10..18).map(rgb).collect::<Vec<_>>());
}

fn exprs(texts: &[&str]) -> Vec<ColorExpr> {
    texts.iter().map(|t| parse_color_expr(t).unwrap()).collect()
}

fn literal_slots(start: u8) -> Vec<ColorExpr> {
    (start..start + 8).map(|v| ColorExpr::Literal(rgb(v))).collect()
}

fn is_color(e: Option<&ResolvedExpr>, c: Rgb) -> bool {
    matches!(e, Some(ResolvedExpr::Color(x)) if *x == c)
}

#[test]
fn ansi_tables_follow_the_stages() {
    let empty = Table::new();
    let normal = literal_slots(0);
    let mut bright = literal_slots(100);
    bright[1] = parse_color_expr("lighten(ansi.red, 0.2)").unwrap();
    let t = resolve_ansi(&empty, &empty, &normal, &bright).unwrap();
    assert_eq!(t.normal.len(), 8);
    assert_eq!(t.bright.len(), 8);
    assert!(is_color(t.table.get(&"red".to_string()), rgb(1)));
    assert!(is_color(t.table.get(&"bright.white".to_string()), rgb(107)));
    match t.table.get(&"bright.red".to_string()) {
        Some(ResolvedExpr::Lighten(inner, f)) => {
            assert!(matches!(**inner, ResolvedExpr::Color(c) if c == rgb(1)));
            assert_eq!(f, "0.2");
        }
        other => panic!("expected Lighten, got {other:?}"),
    }
    assert!(t.table.get(&"bright".to_string()).is_none());
}

#[test]
fn normal_slots_cannot_reference_normal_slots() {
    let empty = Table::new();
    let mut normal = literal_slots(0);
    normal[3] = parse_color_expr("ansi.black").unwrap();
    let err = resolve_ansi(&empty, &empty, &normal, &literal_slots(100)).unwrap_err();
    assert!(matches!(&err, Error::UnresolvedRef(s) if s == "ansi.black"));
}

#[test]
fn ansi_referencing_ansi_bright_is_forbidden() {
    let empty = Table::new();
    let mut normal = literal_slots(0);
    normal[0] = parse_color_expr("ansi.bright.red").unwrap();
    let err = resolve_ansi(&empty, &empty, &normal, &literal_slots(100)).unwrap_err();
    assert!(err.message().contains("ansi.bright.red"), "{}", err.message());
}

#[test]
fn bright_slots_cannot_reference_bright_slots() {
    let empty = Table::new();
    let mut bright = literal_slots(100);
    bright[0] = parse_color_expr("ansi.bright.red").unwrap();
    let err = resolve_ansi(&empty, &empty, &literal_slots(0), &bright).unwrap_err();
    assert!(matches!(&err, Error::UnresolvedRef(s) if s == "ansi.bright.red"));
}

fn variant_colors() -> Vec<(String, ColorsValue)> {
    vec![
        ("night".to_string(), ColorsValue::Text { text: "#7A8FA2".to_string(), written: "\"#7A8FA2\"".to_string() }),
        (
            "lantern".to_string(),
            ColorsValue::Table(vec![(
                "mid".to_string(),
                ColorsValue::Text { text: "#E26A3B".to_string(), written: "\"#E26A3B\"".to_string() },
            )]),
        ),
    ]
}

#[test]
fn a_variant_resolves_in_stages() {
    let base = Base { background: rgb(1), foreground: rgb(2) };
    let series = exprs(&[
        "colors.night", "colors.lantern.mid", "ansi.red", "ansi.bright.red",
        "base.background", "base.foreground", "#010101", "mix(colors.night, ansi.blue, 0.5)",
    ]);
    let sections = vec![exprs(&["darken(ansi.bright.white, 0.1)", "colors.night"])];
    let t = resolve_variant(&variant_colors(), &base, &literal_slots(10), &literal_slots(20), &series, &sections)
        .unwrap();
    assert_eq!(t.series.len(), 8);
    assert!(matches!(t.series[0], ResolvedExpr::Color(c) if c == "#7A8FA2".parse().unwrap()));
    assert!(matches!(t.series[1], ResolvedExpr::Color(c) if c == "#E26A3B".parse().unwrap()));
    assert!(matches!(t.series[2], ResolvedExpr::Color(c) if c == rgb(11)));
    assert!(matches!(t.series[3], ResolvedExpr::Color(c) if c == rgb(21)));
    assert!(matches!(t.series[4], ResolvedExpr::Color(c) if c == rgb(1)));
    assert_eq!(t.sections.len(), 1);
    assert!(matches!(&t.sections[0][0], ResolvedExpr::Darken(x, f) if matches!(**x, ResolvedExpr::Color(c) if c == rgb(27)) && f == "0.1"));
}

#[test]
fn series_length_mismatch_reports_series() {
    let base = Base { background: rgb(1), foreground: rgb(2) };
    let mut series = literal_slots(30);
    series.pop();
    let err = resolve_variant(&variant_colors(), &base, &literal_slots(10), &literal_slots(20), &series, &vec![])
        .unwrap_err();
    assert!(matches!(err, Error::SeriesLength(7)));
    assert!(err.message().contains("series"), "{}", err.message());
}

#[test]
fn undefined_reference_reports_the_reference() {
    let base = Base { background: rgb(1), foreground: rgb(2) };
    let sections = vec![
        exprs(&["colors.night"]),
        exprs(&["base.background", "colors.nothing", "base.nothing"]),
    ];
    let err = resolve_variant(&variant_colors(), &base, &literal_slots(10), &literal_slots(20), &literal_slots(0), &sections)
        .unwrap_err();
    assert!(matches!(&err, Error::UnresolvedRef(s) if s == "colors.nothing"));
    assert!(err.message().contains("colors.nothing"), "{}", err.message());
}

#[test]
fn base_table_has_background_and_foreground() {
    let base = Base { background: rgb(1), foreground: rgb(2) };
    let t = base.to_table();
    assert_eq!(t.get(&"background".to_string()), Some(rgb(1)));
    assert_eq!(t.get(&"foreground".to_string()), Some(rgb(2)));
    assert_eq!(t.get(&"accent".to_string()), None);
}
