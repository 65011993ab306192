use katazome::ansi::AnsiColors;
use katazome::palette::{Colors, Lantern, Layers, Semantic, State};
use katazome::ansi::Ansi;
use katazome::terminal::{profile_colors, profile_name, variant_profile_colors, variant_profile_name};
use katazome::theme::{
    Appearance, Base, Diagnostic, Diff, Id, Markup, ResolvedVariant, Roles, Syntax, Ui, VariantMetadata,
};
use katazome::tools::{Helix, Nvim, PerVariant, Terminal, Zsh};
use katazome::{Artifact, ArtifactContent, Palette, Palettes, Rgb, Variant, VARIANTS};
use std::path::PathBuf;

#[test]
fn per_variant_rel_path_substitution() {
    // Test that {name} substitution works correctly
    assert_eq!(
        PathBuf::from(Helix.rel_path(Variant::Night)),
        PathBuf::from("helix/akari-night.toml")
    );
    assert_eq!(
        PathBuf::from(Helix.rel_path(Variant::Dawn)),
        PathBuf::from("helix/akari-dawn.toml")
    );
}

fn c(v: u8) -> Rgb {
    Rgb { r: v, g: v, b: v }
}

fn ansi(start: u8) -> AnsiColors {
    AnsiColors {
        black: c(start),
        red: c(start + 1),
        green: c(start + 2),
        yellow: c(start + 3),
        blue: c(start + 4),
        magenta: c(start + 5),
        cyan: c(start + 6),
        white: c(start + 7),
    }
}

fn palette(variant: Variant, name: &str) -> Palette {
    let z = c(0);
    Palette {
        variant,
        name: name.into(),
        description: "test".into(),
        colors: Colors {
            lantern: Lantern { ember: z, near: z, mid: z, far: z },
            life: z,
            night: z,
            rain: z,
            muted: z,
        },
        base: Base { background: c(200), foreground: c(201) },
        layers: Layers { base: z, surface: z, sunken: z, raised: z, border: z, inset: z },
        state: State {
            selection_bg: c(202),
            selection_fg: c(203),
            match_bg: z,
            cursor: c(204),
            cursor_text: c(205),
            info: z,
            hint: z,
            warning: z,
            error: z,
            active_bg: z,
            diff_added: z,
            diff_added_bg: z,
            diff_removed: z,
            diff_removed_bg: z,
            diff_changed: z,
            diff_moved: z,
            conflict: z,
        },
        semantic: Semantic {
            text: z,
            comment: z,
            string: z,
            keyword: z,
            number: z,
            constant: z,
            type_: z,
            function: z,
            variable: z,
            member: z,
            success: z,
            path: z,
            macro_: z,
            escape: z,
            regexp: z,
            link: z,
            directory: z,
        },
        ansi: ansi(0),
        ansi_bright: ansi(100),
    }
}

#[test]
fn palettes_get_returns_correct_variant() {
    let night = palette(Variant::Night, "akari-night");
    let dawn = palette(Variant::Dawn, "akari-dawn");

    let palettes = Palettes { night, dawn };

    assert_eq!(palettes.get(Variant::Night).name, "akari-night");
    assert_eq!(palettes.get(Variant::Dawn).name, "akari-dawn");
}

#[test]
fn variant_names() {
    assert_eq!(VARIANTS, [Variant::Night, Variant::Dawn]);
    assert_eq!(Variant::Night.name(), "night");
    assert_eq!(Variant::Dawn.title(), "Dawn");
    assert_eq!(Variant::Night.palette_filename(), "akari-night.toml");
    assert_eq!(Variant::Dawn.palette_filename(), "akari-dawn.toml");
}

#[test]
fn palette_colors_table() {
    let mut p = palette(Variant::Night, "x");
    p.colors.lantern.mid = c(9);
    let t = p.colors.to_table();
    assert_eq!(t.get(&"lantern.mid".to_string()), Some(c(9)));
    assert_eq!(t.get(&"muted".to_string()), Some(c(0)));
    assert_eq!(t.get(&"mid".to_string()), None);
}

#[test]
fn single_file_tools() {
    assert_eq!(Helix.name(), "helix");
    assert_eq!(Helix.template(), "helix.tera");
    assert_eq!(Nvim.name(), "nvim");
    assert_eq!(Nvim.rel_path(), "nvim/lua/akari/palette.lua");
    assert_eq!(Zsh.name(), "zsh");
    assert_eq!(Zsh.rel_path(), "zsh/akari.zsh");
    assert_eq!(Terminal.name(), "terminal");
    assert_eq!(Terminal.rel_path(Variant::Dawn), "terminal/Akari-Dawn.terminal");
}

#[test]
fn terminal_profile_keys() {
    let p = palette(Variant::Dawn, "akari-dawn");
    assert_eq!(profile_name(&p), "Akari-Dawn");
    let entries = profile_colors(&p);
    assert_eq!(entries.len(), 23);
    assert_eq!(entries[0], ("ANSIBlackColor".to_string(), c(0)));
    assert_eq!(entries[5], ("ANSIMagentaColor".to_string(), c(5)));
    assert_eq!(entries[15], ("ANSIBrightWhiteColor".to_string(), c(107)));
    assert_eq!(entries[16], ("BackgroundColor".to_string(), c(200)));
    assert_eq!(entries[19], ("CursorColor".to_string(), c(204)));
    assert_eq!(entries[22], ("SelectedTextColor".to_string(), c(203)));
}

#[test]
fn artifact_constructors() {
    let a = Artifact::text("helix/x.toml".to_string(), "body".to_string());
    assert!(!a.executable);
    assert!(matches!(a.content, ArtifactContent::Text(ref t) if t == "body"));
    let b = Artifact::rendered("nix/x.sh".to_string(), "#!".to_string(), true);
    assert!(b.executable);
    let d = Artifact::bytes("chrome/icon.png".to_string(), vec![1, 2], false);
    assert!(matches!(d.content, ArtifactContent::Bytes(ref v) if v == &vec![1, 2]));
}

fn variant() -> ResolvedVariant {
    let z = c(0);
    ResolvedVariant {
        variant: VariantMetadata {
            id: Id::parse("shadow").unwrap(),
            name: "Shadow".to_string(),
            appearance: Appearance::Dark,
            description: "test".to_string(),
        },
        base: Base { background: c(200), foreground: c(201) },
        ansi: Ansi { normal: ansi(10), bright: ansi(110) },
        roles: Roles {
            ui: Ui {
                surface: z, sunken: z, raised: z, inset: z, border: z, muted: z, accent: z,
                accent_secondary: z, on_accent: z, selection_bg: c(212), selection_fg: c(213),
                match_bg: z, cursor: c(214), cursor_text: c(215), active_bg: z, link: z,
            },
            diagnostic: Diagnostic { error: z, warning: z, info: z, hint: z, success: z },
            diff: Diff {
                added: z, added_bg: z, removed: z, removed_bg: z, changed: z, moved: z,
                conflict: z, ours: z, theirs: z,
            },
            syntax: Syntax {
                text: z, comment: z, keyword: z, string: z, character: z, number: z, constant: z,
                type_: z, function: z, variable: z, member: z, builtin: z, namespace: z,
                attribute: z, label: z, tag: z, punctuation_special: z, decorator: z, macro_: z,
                escape: z, regexp: z, path: z, directory: z,
            },
            markup: Markup { heading_1: z, heading_2: z, heading_3: z, heading_4: z, list: z, raw: z },
            series: [z; 8],
        },
    }
}

#[test]
fn theme_terminal_profile_takes_cursor_and_selection_from_ui_roles() {
    let v = variant();
    let entries = variant_profile_colors(&v);
    assert_eq!(entries.len(), 23);
    assert_eq!(entries[1], ("ANSIRedColor".to_string(), c(11)));
    assert_eq!(entries[8], ("ANSIBrightBlackColor".to_string(), c(110)));
    assert_eq!(entries[17], ("TextColor".to_string(), c(201)));
    assert_eq!(entries[18], ("TextBoldColor".to_string(), c(201)));
    assert_eq!(entries[19], ("CursorColor".to_string(), c(214)));
    assert_eq!(entries[20], ("CursorTextColor".to_string(), c(215)));
    assert_eq!(entries[21], ("SelectionColor".to_string(), c(212)));
    assert_eq!(entries[22], ("SelectedTextColor".to_string(), c(213)));
}

#[test]
fn theme_terminal_ninja_profile_name_and_file_name() {
    assert_eq!(variant_profile_name("Ninja", "Shadow"), "Ninja-Shadow");
    assert_eq!(
        katazome::generator::terminal_file("Ninja", "Shadow"),
        "terminal/Ninja-Shadow.terminal"
    );
}
