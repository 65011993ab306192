use katazome::resolve::{resolve_all, resolve_refs, ResolvedExpr, Resolver, SlotTable};
use katazome::expr::{
    parse_color_expr, ColorExpr, Section,
};
use katazome::{Error, Rgb, Table};

fn hex(s: &str) -> Rgb {
    s.parse().unwrap()
}

fn factor(s: &str) -> f64 {
    s.parse().unwrap()
}

#[test]
fn parse_color_expr_literal() {
    let expr = parse_color_expr("#E26A3B").unwrap();
    assert!(matches!(expr, ColorExpr::Literal(c) if c == hex("#E26A3B")));
}

#[test]
fn parse_color_expr_reference() {
    let expr = parse_color_expr("colors.lantern.mid").unwrap();
    assert!(
        matches!(expr, ColorExpr::Ref { section, key } if section == Section::Colors && key == "lantern.mid")
    );
}

#[test]
fn parse_color_expr_lighten() {
    let expr = parse_color_expr("lighten(colors.lantern.mid, 0.1)").unwrap();
    match expr {
        ColorExpr::Lighten(inner, f) => {
            assert!(
                matches!(*inner, ColorExpr::Ref { section, key } if section == Section::Colors && key == "lantern.mid")
            );
            assert!((factor(&f) - 0.1).abs() < 0.001);
        }
        _ => panic!("expected Lighten"),
    }
}

#[test]
fn parse_color_expr_darken() {
    let expr = parse_color_expr("darken(base.background, 0.2)").unwrap();
    match expr {
        ColorExpr::Darken(inner, f) => {
            assert!(
                matches!(*inner, ColorExpr::Ref { section, key } if section == Section::Base && key == "background")
            );
            assert!((factor(&f) - 0.2).abs() < 0.001);
        }
        _ => panic!("expected Darken"),
    }
}

#[test]
fn parse_color_expr_nested() {
    let expr = parse_color_expr("lighten(darken(colors.lantern.mid, 0.1), 0.2)").unwrap();
    match expr {
        ColorExpr::Lighten(inner, outer_factor) => {
            assert!((factor(&outer_factor) - 0.2).abs() < 0.001);
            match *inner {
                ColorExpr::Darken(innermost, inner_factor) => {
                    assert!(
                        matches!(*innermost, ColorExpr::Ref { section, key } if section == Section::Colors && key == "lantern.mid")
                    );
                    assert!((factor(&inner_factor) - 0.1).abs() < 0.001);
                }
                _ => panic!("expected Darken"),
            }
        }
        _ => panic!("expected Lighten"),
    }
}

#[test]
fn parse_color_expr_mix() {
    let expr = parse_color_expr("mix(base.background, colors.night, 0.15)").unwrap();
    match expr {
        ColorExpr::Mix(color1, color2, f) => {
            assert!(
                matches!(*color1, ColorExpr::Ref { section, key } if section == Section::Base && key == "background")
            );
            assert!(
                matches!(*color2, ColorExpr::Ref { section, key } if section == Section::Colors && key == "night")
            );
            assert!((factor(&f) - 0.15).abs() < 0.001);
        }
        _ => panic!("expected Mix"),
    }
}

#[test]
fn parse_color_expr_rejects_non_referenceable_sections() {
    // layers, state, semantic, roles exist in the theme but cannot be referenced
    let err = parse_color_expr("layers.base").unwrap_err();
    assert!(matches!(err, Error::InvalidColorExpr(msg) if msg.contains("cannot be referenced")));

    let err = parse_color_expr("state.cursor").unwrap_err();
    assert!(matches!(err, Error::InvalidColorExpr(msg) if msg.contains("cannot be referenced")));

    let err = parse_color_expr("semantic.keyword").unwrap_err();
    assert!(matches!(err, Error::InvalidColorExpr(msg) if msg.contains("cannot be referenced")));
}

#[test]
fn parse_color_expr_ansi_bright() {
    // ansi.bright.* is parsed as Section::Ansi with key "bright.*"
    let expr = parse_color_expr("ansi.bright.red").unwrap();
    assert!(
        matches!(expr, ColorExpr::Ref { section, key } if section == Section::Ansi && key == "bright.red")
    );
}

#[test]
fn parse_trims_surrounding_whitespace() {
    let expr = parse_color_expr("  \tcolors.night \n").unwrap();
    assert!(matches!(expr, ColorExpr::Ref { section, key } if section == Section::Colors && key == "night"));
}

#[test]
fn parse_reports_each_kind_of_error() {
    let err = parse_color_expr("#12").unwrap_err();
    assert!(matches!(&err, Error::InvalidHex(s) if s == "#12"));

    let err = parse_color_expr("nothing").unwrap_err();
    assert!(matches!(&err, Error::InvalidColorExpr(s) if s == "nothing"));

    let err = parse_color_expr("lighten(colors.x)").unwrap_err();
    assert!(matches!(&err, Error::InvalidColorExpr(s) if s == "expected 'color, factor': colors.x"));

    let err = parse_color_expr("lighten(colors.x, much)").unwrap_err();
    assert!(matches!(&err, Error::InvalidColorExpr(s) if s == "invalid factor: much"));

    let err = parse_color_expr("mix(colors.x, 0.5)").unwrap_err();
    assert!(
        matches!(&err, Error::InvalidColorExpr(s) if s == "expected 'color1, color2, factor': colors.x, 0.5")
    );

    let err = parse_color_expr("roles.ui.cursor").unwrap_err();
    assert_eq!(
        err.message(),
        "invalid color expression: 'roles' cannot be referenced (allowed: colors, base, ansi)"
    );
}

#[test]
fn factors_follow_the_float_grammar() {
    for ok in ["0.1", "1", "1.", ".5", "-0.2", "+3e2", "1E-3", "inf", "-Infinity", "NaN"] {
        let text = format!("brighten(colors.x, {ok})");
        assert!(parse_color_expr(&text).is_ok(), "{ok}");
        assert!(ok.parse::<f64>().is_ok(), "{ok}");
    }
    for bad in [".", "e5", "1e", "1.2.3", "--1", "0x10", "1_0", ""] {
        let text = format!("brighten(colors.x, {bad})");
        assert!(parse_color_expr(&text).is_err(), "{bad:?}");
        assert!(bad.parse::<f64>().is_err(), "{bad:?}");
    }
}

#[test]
fn the_factor_is_checked_before_the_color() {
    let err = parse_color_expr("lighten(nothing, x)").unwrap_err();
    assert!(matches!(&err, Error::InvalidColorExpr(s) if s == "invalid factor: x"));
}

fn tables() -> (Table, Table, SlotTable) {
    let mut colors = Table::new();
    colors.insert("night".to_string(), hex("#7A8FA2"));
    colors.insert("lantern.mid".to_string(), hex("#E26A3B"));
    let mut base = Table::new();
    base.insert("background".to_string(), hex("#25231F"));
    let mut ansi = SlotTable::new();
    ansi.insert("bright.red".to_string(), ResolvedExpr::Color(hex("#FF0000")));
    (colors, base, ansi)
}

#[test]
fn references_resolve_against_their_section() {
    let (colors, base, ansi) = tables();
    let resolver = Resolver { colors: &colors, base: &base, ansi: Some(&ansi) };
    let expr = parse_color_expr("mix(base.background, ansi.bright.red, 0.5)").unwrap();
    match resolve_refs(&resolver, &expr).unwrap() {
        ResolvedExpr::Mix(a, b, f) => {
            assert!(matches!(*a, ResolvedExpr::Color(c) if c == hex("#25231F")));
            assert!(matches!(*b, ResolvedExpr::Color(c) if c == hex("#FF0000")));
            assert_eq!(f, "0.5");
        }
        other => panic!("expected Mix, got {other:?}"),
    }
}

#[test]
fn ansi_is_unreachable_while_ansi_resolves() {
    let (colors, base, _) = tables();
    let resolver = Resolver { colors: &colors, base: &base, ansi: None };
    let expr = parse_color_expr("ansi.bright.red").unwrap();
    let err = resolve_refs(&resolver, &expr).unwrap_err();
    assert!(matches!(&err, Error::UnresolvedRef(s) if s == "ansi.bright.red"));
    assert_eq!(err.message(), "unresolved reference: ansi.bright.red");
}

#[test]
fn an_undefined_reference_names_itself() {
    let (colors, base, ansi) = tables();
    let resolver = Resolver { colors: &colors, base: &base, ansi: Some(&ansi) };
    let expr = parse_color_expr("lighten(colors.nothing, 0.1)").unwrap();
    let err = resolve_refs(&resolver, &expr).unwrap_err();
    assert!(matches!(&err, Error::UnresolvedRef(s) if s == "colors.nothing"));
}

#[test]
fn resolve_all_reports_the_first_failure_in_order() {
    let (colors, base, ansi) = tables();
    let resolver = Resolver { colors: &colors, base: &base, ansi: Some(&ansi) };
    let exprs = vec![
        parse_color_expr("colors.night").unwrap(),
        parse_color_expr("colors.first").unwrap(),
        parse_color_expr("base.second").unwrap(),
    ];
    let err = resolve_all(&resolver, &exprs).unwrap_err();
    assert!(matches!(&err, Error::UnresolvedRef(s) if s == "colors.first"));

    let exprs = vec![
        parse_color_expr("colors.night").unwrap(),
        parse_color_expr("#010203").unwrap(),
    ];
    let out = resolve_all(&resolver, &exprs).unwrap();
    assert_eq!(out.len(), 2);
    assert!(matches!(out[0], ResolvedExpr::Color(c) if c == hex("#7A8FA2")));
    assert!(matches!(out[1], ResolvedExpr::Color(c) if c == Rgb { r: 1, g: 2, b: 3 }));
}

#[test]
fn literals_resolve_in_any_scope() {
    let empty = Table::new();
    let resolver = Resolver { colors: &empty, base: &empty, ansi: None };
    let expr = parse_color_expr("darken(#102030, 0.3)").unwrap();
    assert!(matches!(
        resolve_refs(&resolver, &expr).unwrap(),
        ResolvedExpr::Darken(inner, f) if matches!(*inner, ResolvedExpr::Color(c) if c == hex("#102030")) && f == "0.3"
    ));
}

#[test]
fn section_names_round_trip() {
    for s in [Section::Colors, Section::Base, Section::Ansi] {
        assert_eq!(Section::parse(s.as_str()).unwrap(), s);
    }
    assert!(Section::parse("roles").is_err());
}

#[test]
fn table_reads_back_the_last_write() {
    let mut t = Table::new();
    assert_eq!(t.get(&"a".to_string()), None);
    t.insert("a".to_string(), Rgb { r: 1, g: 1, b: 1 });
    t.insert("b".to_string(), Rgb { r: 2, g: 2, b: 2 });
    t.insert("a".to_string(), Rgb { r: 3, g: 3, b: 3 });
    assert_eq!(t.get(&"a".to_string()), Some(Rgb { r: 3, g: 3, b: 3 }));
    assert_eq!(t.get(&"b".to_string()), Some(Rgb { r: 2, g: 2, b: 2 }));
}

#[test]
fn role_referencing_another_role_is_forbidden() {
    let err = parse_color_expr("roles.ui.cursor").unwrap_err();
    assert!(err.message().contains("roles"), "{}", err.message());
}
