use katazome::expr::{parse_color_expr, ColorExpr};
use katazome::palette::{Colors, Lantern};
use katazome::resolve::{resolve_palette, ResolvedExpr};
use katazome::theme::Base;
use katazome::{Error, Rgb};

fn hex(s: &str) -> Rgb {
    s.parse().unwrap()
}

fn exprs(texts: &[&str]) -> Vec<ColorExpr> {
    texts.iter().map(|t| parse_color_expr(t).unwrap()).collect()
}

fn colors() -> Colors {
    Colors {
        lantern: Lantern {
            ember: hex("#D65A3A"),
            near: hex("#D25046"),
            mid: hex("#E26A3B"),
            far: hex("#D4A05A"),
        },
        life: hex("#7FAF6A"),
        night: hex("#5A6F82"),
        rain: hex("#6F8F8A"),
        muted: hex("#7C6A8A"),
    }
}

fn base() -> Base {
    Base { background: hex("#171B22"), foreground: hex("#E6DED3") }
}

fn ansi() -> (Vec<ColorExpr>, Vec<ColorExpr>) {
    let normal = exprs(&[
        "#171B22",
        "colors.lantern.near",
        "colors.life",
        "colors.lantern.far",
        "colors.night",
        "colors.muted",
        "colors.rain",
        "base.foreground",
    ]);
    let bright = exprs(&[
        "#3A424D",
        "colors.lantern.mid",
        "colors.life",
        "colors.lantern.far",
        "colors.night",
        "colors.muted",
        "colors.rain",
        "base.foreground",
    ]);
    (normal, bright)
}

fn layers() -> Vec<ColorExpr> {
    exprs(&["#171B22", "#1E2329", "#13171D", "#252B33", "#2E353E", "#3A424D"])
}

fn state() -> Vec<ColorExpr> {
    exprs(&[
        "#3A424D", "#E6DED3", "#4A3A2A", "#E26A3B", "#171B22", "#5A6F82", "#7C6A8A", "#D4A05A",
        "#D65A3A", "#2A3540", "#7FAF6A", "#2A3A2A", "#D65A3A", "#3A2A2A", "#D4A05A", "#5A6F82",
        "#D65A3A",
    ])
}

fn semantic(string: &str) -> Vec<ColorExpr> {
    exprs(&[
        "base.foreground",
        "#7D8797",
        string,
        "colors.lantern.mid",
        "colors.lantern.far",
        "colors.lantern.far",
        "colors.lantern.far",
        "colors.lantern.mid",
        "base.foreground",
        "colors.night",
        "colors.life",
        "ansi.green",
        "ansi.bright.magenta",
        "ansi.bright.magenta",
        "ansi.bright.green",
        "ansi.bright.blue",
        "ansi.cyan",
    ])
}

fn is_color(e: &ResolvedExpr, c: Rgb) -> bool {
    matches!(e, ResolvedExpr::Color(x) if *x == c)
}

#[test]
fn invalid_reference_fails() {
    let (normal, bright) = ansi();
    let sections = vec![layers(), state(), semantic("colors.nonexistent")];
    let err = resolve_palette(&colors(), &base(), &normal, &bright, &sections).unwrap_err();
    assert!(matches!(err, Error::UnresolvedRef(_)));
    assert!(matches!(&err, Error::UnresolvedRef(s) if s == "colors.nonexistent"));
}

#[test]
fn palette_references_resolve() {
    let (normal, bright) = ansi();
    let sections = vec![layers(), state(), semantic("colors.life")];
    let (n, b, ss) = resolve_palette(&colors(), &base(), &normal, &bright, &sections).unwrap();
    assert!(is_color(&n[2], hex("#7FAF6A")));
    assert!(is_color(&n[7], hex("#E6DED3")));
    assert!(is_color(&b[1], hex("#E26A3B")));
    assert_eq!(ss.len(), 3);
    assert_eq!(ss[2].len(), 17);
    assert!(is_color(&ss[2][2], hex("#7FAF6A")));
    assert!(is_color(&ss[2][3], hex("#E26A3B")));
    assert!(is_color(&ss[2][9], hex("#5A6F82")));
    assert!(is_color(&ss[2][11], hex("#7FAF6A")));
    assert!(is_color(&ss[2][12], hex("#7C6A8A")));
    assert!(is_color(&ss[2][16], hex("#6F8F8A")));
}

#[test]
fn palette_colors_are_the_eight_named_colors() {
    let (normal, bright) = ansi();
    let sections = vec![exprs(&["colors.lantern"])];
    let err = resolve_palette(&colors(), &base(), &normal, &bright, &sections).unwrap_err();
    assert!(matches!(&err, Error::UnresolvedRef(s) if s == "colors.lantern"));
}
