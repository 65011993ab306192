//! The decisions of the generator that do not render anything: which tools
//! each route renders, which adapter keys a tool needs, and the output
//! names of templates.
use vstd::prelude::*;
use crate::error::{Error, ErrorView};
use crate::names::{
    contains, contains_spec, ends_with, ends_with_spec, replace_all, replace_spec, strip_suffix,
    strip_suffix_spec,
};
use crate::palette::{variant_name, variant_title, Variant};
use crate::text::{push_str, string_from};
use crate::theme::Id;

verus! {

/// Tools generated from a theme directory, in the order they are listed.
pub open spec fn theme_tool_names() -> Seq<Seq<char>> {
    seq![
        "alacritty"@,
        "bat"@,
        "chrome"@,
        "codex"@,
        "delta"@,
        "fzf"@,
        "gh-dash"@,
        "ghostty"@,
        "helix"@,
        "lazygit"@,
        "nix"@,
        "nvim"@,
        "slack"@,
        "starship"@,
        "terminal"@,
        "tmux"@,
        "vscode"@,
        "zed"@,
        "zellij"@,
        "zsh"@,
    ]
}

fn theme_tool_strs() -> (v: Vec<&'static str>)
    ensures
        v@.len() == theme_tool_names().len(),
        forall|i: int| 0 <= i < v@.len() ==> (#[trigger] v@[i])@ == theme_tool_names()[i],
{
    let v = vec![
        "alacritty",
        "bat",
        "chrome",
        "codex",
        "delta",
        "fzf",
        "gh-dash",
        "ghostty",
        "helix",
        "lazygit",
        "nix",
        "nvim",
        "slack",
        "starship",
        "terminal",
        "tmux",
        "vscode",
        "zed",
        "zellij",
        "zsh",
    ];
    v
}

/// The tools generated from a theme directory.
pub fn available_theme_tools() -> (v: Vec<String>)
    ensures
        v@.len() == theme_tool_names().len(),
        forall|i: int| 0 <= i < v@.len() ==> (#[trigger] v@[i])@ == theme_tool_names()[i],
{
    let names = theme_tool_strs();
    let mut v: Vec<String> = Vec::new();
    let mut i: usize = 0;
    while i < names.len()
        invariant
            i <= names@.len(),
            names@.len() == theme_tool_names().len(),
            forall|j: int| 0 <= j < names@.len() ==> (#[trigger] names@[j])@ == theme_tool_names()[j],
            v@.len() == i,
            forall|j: int| 0 <= j < i ==> (#[trigger] v@[j])@ == theme_tool_names()[j],
        decreases names@.len() - i,
    {
        v.push(string_from(names[i]));
        i = i + 1;
    }
    v
}

/// Whether the theme route renders `tool`.
pub fn is_theme_tool(tool: &str) -> (b: bool)
    ensures
        b == theme_tool_names().contains(tool@),
{
    let names = theme_tool_strs();
    let t = string_from(tool);
    let mut i: usize = 0;
    while i < names.len()
        invariant
            i <= names@.len(),
            t@ == tool@,
            names@.len() == theme_tool_names().len(),
            forall|j: int| 0 <= j < names@.len() ==> (#[trigger] names@[j])@ == theme_tool_names()[j],
            forall|j: int| 0 <= j < i ==> theme_tool_names()[j] != tool@,
        decreases names@.len() - i,
    {
        let n = string_from(names[i]);
        if n == t {
            assert(theme_tool_names()[i as int] == tool@);
            return true;
        }
        i = i + 1;
    }
    false
}

/// The palette route refuses tools that the theme route renders.
pub fn check_palette_tool(tool: &str) -> (r: Result<(), Error>)
    ensures
        !theme_tool_names().contains(tool@) ==> r is Ok,
        theme_tool_names().contains(tool@) ==> (r matches Err(e) && e@ == ErrorView::ToolMigrated(tool@)),
{
    if is_theme_tool(tool) {
        Err(Error::ToolMigrated(string_from(tool)))
    } else {
        Ok(())
    }
}

/// The theme route refuses tools that it does not render.
pub fn check_theme_tool(tool: &str) -> (r: Result<(), Error>)
    ensures
        theme_tool_names().contains(tool@) ==> r is Ok,
        !theme_tool_names().contains(tool@) ==> (r matches Err(e) && e@ == ErrorView::ToolNotThemed(tool@)),
{
    if is_theme_tool(tool) {
        Ok(())
    } else {
        Err(Error::ToolNotThemed(string_from(tool)))
    }
}

/// The `[adapters.<tool>]` keys a tool requires.
pub open spec fn required_adapter_keys_spec(tool: Seq<char>) -> Seq<Seq<char>> {
    if tool == "chrome"@ {
        seq!["version"@]
    } else if tool == "vscode"@ {
        seq!["publisher"@, "version"@]
    } else {
        Seq::empty()
    }
}

/// The `[adapters.<tool>]` keys `tool` requires.
pub fn required_adapter_keys(tool: &str) -> (v: Vec<String>)
    ensures
        v@.len() == required_adapter_keys_spec(tool@).len(),
        forall|i: int| 0 <= i < v@.len() ==> (#[trigger] v@[i])@ == required_adapter_keys_spec(tool@)[i],
{
    let t = string_from(tool);
    let chrome = string_from("chrome");
    let vscode = string_from("vscode");
    let mut v: Vec<String> = Vec::new();
    if t == chrome {
        v.push(string_from("version"));
    } else if t == vscode {
        v.push(string_from("publisher"));
        v.push(string_from("version"));
    }
    v
}

/// The first key of `required` that `present` lacks, if any.
pub open spec fn first_missing(required: Seq<Seq<char>>, present: Option<Seq<Seq<char>>>) -> Option<int>
    decreases required.len(),
{
    if required.len() == 0 {
        None
    } else {
        if !key_present(present, required[0]) {
            Some(0)
        } else {
            match first_missing(required.drop_first(), present) {
                Some(i) => Some(i + 1),
                None => None,
            }
        }
    }
}

/// Whether the adapter table (if any) has `key`.
pub open spec fn key_present(present: Option<Seq<Seq<char>>>, key: Seq<char>) -> bool {
    match present {
        Some(keys) => keys.contains(key),
        None => false,
    }
}

pub open spec fn strings_view(v: Seq<String>) -> Seq<Seq<char>> {
    v.map_values(|s: String| s@)
}

proof fn lemma_first_missing(required: Seq<Seq<char>>, present: Option<Seq<Seq<char>>>, i: int)
    requires
        0 <= i <= required.len(),
        forall|j: int| 0 <= j < i ==> key_present(present, #[trigger] required[j]),
    ensures
        first_missing(required, present) == match first_missing(required.skip(i), present) {
            Some(k) => Some(k + i),
            None => None::<int>,
        },
    decreases i,
{
    if i > 0 {
        assert(required.skip(1) == required.drop_first());
        assert forall|j: int| 0 <= j < i - 1 implies key_present(present, #[trigger] required.drop_first()[j]) by {
            assert(required.drop_first()[j] == required[j + 1]);
        }
        lemma_first_missing(required.drop_first(), present, i - 1);
        assert(required.drop_first().skip(i - 1) == required.skip(i));
    } else {
        assert(required.skip(0) == required);
    }
}

fn contains_key(keys: &Vec<String>, key: &String) -> (b: bool)
    ensures
        b == strings_view(keys@).contains(key@),
{
    let mut i: usize = 0;
    while i < keys.len()
        invariant
            i <= keys@.len(),
            forall|j: int| 0 <= j < i ==> (#[trigger] keys@[j])@ != key@,
        decreases keys@.len() - i,
    {
        if keys[i] == *key {
            assert(strings_view(keys@)[i as int] == key@);
            return true;
        }
        i = i + 1;
    }
    proof {
        assert forall|j: int| 0 <= j < strings_view(keys@).len() implies strings_view(keys@)[j] != key@ by {
            assert(strings_view(keys@)[j] == keys@[j]@);
        }
    }
    false
}

/// Every required key must be a key of the tool's adapter table
/// (`table_keys`, `None` when `theme.toml` has no table for the tool); the
/// first missing one is the error.
pub fn check_adapter_keys(tool: &str, required: &Vec<String>, table_keys: Option<&Vec<String>>) -> (r: Result<(), Error>)
    ensures
        match first_missing(strings_view(required@), match table_keys {
            Some(k) => Some(strings_view(k@)),
            None => None,
        }) {
            None => r is Ok,
            Some(i) => r matches Err(e) && e@ == ErrorView::AdapterKeyMissing { tool: tool@, key: required@[i]@ },
        },
{
    let ghost req = strings_view(required@);
    let ghost present = match table_keys {
        Some(k) => Some(strings_view(k@)),
        None => None,
    };
    let mut i: usize = 0;
    while i < required.len()
        invariant
            i <= required@.len(),
            req == strings_view(required@),
            present == match table_keys {
                Some(k) => Some(strings_view(k@)),
                None => None,
            },
            forall|j: int| 0 <= j < i ==> key_present(present, #[trigger] req[j]),
        decreases required@.len() - i,
    {
        let found = match table_keys {
            Some(keys) => contains_key(keys, &required[i]),
            None => false,
        };
        assert(req[i as int] == required@[i as int]@);
        if !found {
            proof {
                lemma_first_missing(req, present, i as int);
                assert(req.skip(i as int)[0] == req[i as int]);
            }
            let mut t = string_from(tool);
            let k = required[i].clone();
            return Err(Error::AdapterKeyMissing { tool: t, key: k });
        }
        i = i + 1;
    }
    proof {
        lemma_first_missing(req, present, i as int);
        assert(req.skip(i as int) =~= Seq::<Seq<char>>::empty());
    }
    Ok(())
}

/// The tools a template directory holds that the palette route renders:
/// `dirs` in order, without the theme tools.
pub open spec fn palette_route_spec(dirs: Seq<Seq<char>>) -> Seq<Seq<char>>
    decreases dirs.len(),
{
    if dirs.len() == 0 {
        Seq::empty()
    } else {
        let r = palette_route_spec(dirs.drop_last());
        if theme_tool_names().contains(dirs.last()) {
            r
        } else {
            r.push(dirs.last())
        }
    }
}

/// Of the tool directories found under the templates, those the palette
/// route still renders.
pub fn palette_route_tools(dirs: &Vec<String>) -> (v: Vec<String>)
    ensures
        strings_view(v@) == palette_route_spec(strings_view(dirs@)),
{
    let ghost d = strings_view(dirs@);
    let mut v: Vec<String> = Vec::new();
    let mut i: usize = 0;
    assert(d.take(0) =~= Seq::<Seq<char>>::empty());
    assert(strings_view(v@) =~= Seq::<Seq<char>>::empty());
    while i < dirs.len()
        invariant
            i <= dirs@.len(),
            d == strings_view(dirs@),
            strings_view(v@) == palette_route_spec(d.take(i as int)),
        decreases dirs@.len() - i,
    {
        assert(d.take(i + 1).drop_last() =~= d.take(i as int));
        assert(d.take(i + 1).last() == dirs@[i as int]@);
        if !is_theme_tool(dirs[i].as_str()) {
            let ghost before = strings_view(v@);
            v.push(dirs[i].clone());
            assert(strings_view(v@) =~= before.push(dirs@[i as int]@));
        }
        i = i + 1;
    }
    assert(d.take(i as int) =~= d);
    v
}

/// The palette route lists exactly the tool directories that are not theme
/// tools: nothing else, and none of the theme tools.
pub proof fn law_palette_route_excludes_theme_tools(dirs: Seq<Seq<char>>, t: Seq<char>)
    ensures
        palette_route_spec(dirs).contains(t) <==> (dirs.contains(t) && !theme_tool_names().contains(t)),
    decreases dirs.len(),
{
    if dirs.len() > 0 {
        let d = dirs.drop_last();
        let x = dirs.last();
        law_palette_route_excludes_theme_tools(d, t);
        assert(dirs == d.push(x));
        let r = palette_route_spec(d);
        if dirs.contains(t) {
            let i = choose|i: int| 0 <= i < dirs.len() && dirs[i] == t;
            if i < dirs.len() - 1 {
                assert(d[i] == t);
            }
        }
        if d.contains(t) {
            let i = choose|i: int| 0 <= i < d.len() && d[i] == t;
            assert(dirs[i] == t);
        }
        if !theme_tool_names().contains(x) {
            assert(r.push(x)[r.len() as int] == x);
            if r.push(x).contains(t) {
                let i = choose|i: int| 0 <= i < r.len() + 1 && r.push(x)[i] == t;
                if i < r.len() {
                    assert(r[i] == t);
                }
            }
            if r.contains(t) {
                let i = choose|i: int| 0 <= i < r.len() && r[i] == t;
                assert(r.push(x)[i] == t);
            }
        }
        assert(dirs[dirs.len() - 1] == x);
    }
}

/// Whether a file under a tool's template directory is a template: its
/// extension, as `Path::extension` reads it, is `tera`. A name that is
/// only `.tera` has no extension.
pub fn is_template_file(file_name: &str) -> (b: bool)
    ensures
        b == (file_name@.len() > 5 && ends_with_spec(file_name@, ".tera"@)),
{
    proof {
        reveal_strlit(".tera");
    }
    let n = file_name.unicode_len();
    n > 5 && ends_with(file_name, ".tera")
}

/// The template name of a file below the templates directory: its relative
/// path with `/` separators.
pub fn template_name(rel_path: &str) -> (r: String)
    ensures
        r@ == replace_spec(rel_path@, seq!['\\'], seq!['/']),
{
    proof {
        reveal_strlit("\\");
        reveal_strlit("/");
        assert("\\"@ =~= seq!['\\']);
        assert("/"@ =~= seq!['/']);
    }
    replace_all(rel_path, "\\", "/")
}

/// The tools one run generates: every available tool for `all`, otherwise
/// the tool named.
pub fn requested_tools(tool: String, available: Vec<String>) -> (v: Vec<String>)
    ensures
        tool@ == "all"@ ==> v@ == available@,
        tool@ != "all"@ ==> v@ == seq![tool],
{
    let all = string_from("all");
    if tool == all {
        available
    } else {
        vec![tool]
    }
}

/// The tools one run from a theme directory renders. With `--tool` values:
/// every tool when one of them is `all`, else the values as given. Without
/// any: the theme's `tools`, or every tool when the theme lists none.
pub open spec fn selected_tools_spec(flags: Seq<Seq<char>>, listed: Option<Seq<Seq<char>>>) -> Seq<Seq<char>> {
    if flags.len() > 0 {
        if flags.contains("all"@) {
            theme_tool_names()
        } else {
            flags
        }
    } else {
        match listed {
            Some(l) => l,
            None => theme_tool_names(),
        }
    }
}

fn copy_strings(v: &Vec<String>) -> (r: Vec<String>)
    ensures
        strings_view(r@) == strings_view(v@),
{
    let mut r: Vec<String> = Vec::new();
    let mut i: usize = 0;
    while i < v.len()
        invariant
            i <= v@.len(),
            r@.len() == i,
            forall|j: int| 0 <= j < i ==> (#[trigger] r@[j])@ == v@[j]@,
        decreases v@.len() - i,
    {
        r.push(v[i].clone());
        i = i + 1;
    }
    assert(strings_view(r@) =~= strings_view(v@));
    r
}

/// The tools to generate from the repeated `--tool` values (`flags`) and
/// the theme's `tools` (`listed`, `None` when `theme.toml` has none).
pub fn select_tools(flags: &Vec<String>, listed: Option<&Vec<String>>) -> (v: Vec<String>)
    ensures
        strings_view(v@) == selected_tools_spec(strings_view(flags@), match listed {
            Some(l) => Some(strings_view(l@)),
            None => None,
        }),
{
    proof {
        reveal_strlit("all");
    }
    let all = string_from("all");
    if flags.len() > 0 {
        let found = contains_key(flags, &all);
        if found {
            let v = available_theme_tools();
            assert(strings_view(v@) =~= theme_tool_names());
            v
        } else {
            copy_strings(flags)
        }
    } else {
        match listed {
            Some(l) => copy_strings(l),
            None => {
                let v = available_theme_tools();
                assert(strings_view(v@) =~= theme_tool_names());
                v
            },
        }
    }
}

/// `path` without a trailing `.tera`.
pub fn strip_tera_extension(path: &str) -> (r: String)
    ensures
        r@ == strip_suffix_spec(path@, ".tera"@),
{
    strip_suffix(path, ".tera")
}

/// Whether a theme-route output name is rendered once per variant.
pub fn is_per_variant_output(out: &str) -> (b: bool)
    ensures
        b == contains_spec(out@, "{variant}"@),
{
    contains(out, "{variant}")
}

/// Substitutes `{theme}` with the theme id, and `{variant}` with the
/// variant id for a per-variant template, in a theme-route output name.
pub open spec fn theme_output_name_spec(pattern: Seq<char>, theme: Seq<char>, variant: Option<Seq<char>>) -> Seq<char> {
    let p = replace_spec(pattern, "{theme}"@, theme);
    match variant {
        Some(v) => replace_spec(p, "{variant}"@, v),
        None => p,
    }
}

pub fn theme_output_name(pattern: &str, theme: &Id, variant: Option<&Id>) -> (r: String)
    ensures
        r@ == theme_output_name_spec(pattern@, theme@, match variant {
            Some(v) => Some(v@),
            None => None,
        }),
{
    proof {
        reveal_strlit("{theme}");
        reveal_strlit("{variant}");
    }
    let p = replace_all(pattern, "{theme}", theme.as_str());
    match variant {
        Some(v) => replace_all(p.as_str(), "{variant}", v.as_str()),
        None => p,
    }
}

/// The files one theme-route template renders to, below `tool/`: one per
/// variant, in the variants' order, when its output name has `{variant}`;
/// otherwise one for the whole theme.
pub open spec fn theme_outputs_spec(tool: Seq<char>, out: Seq<char>, theme: Seq<char>, variants: Seq<Seq<char>>) -> Seq<Seq<char>> {
    if contains_spec(out, "{variant}"@) {
        Seq::new(variants.len(), |i: int| tool + "/"@ + theme_output_name_spec(out, theme, Some(variants[i])))
    } else {
        seq![tool + "/"@ + theme_output_name_spec(out, theme, None)]
    }
}

pub open spec fn ids_view(v: Seq<&Id>) -> Seq<Seq<char>> {
    v.map_values(|x: &Id| x@)
}

/// The relative paths a theme-route template with output name `out`
/// renders to, for a theme and its variants (in order).
pub fn theme_outputs(tool: &str, out: &str, theme: &Id, variants: &Vec<&Id>) -> (v: Vec<String>)
    ensures
        strings_view(v@) == theme_outputs_spec(tool@, out@, theme@, ids_view(variants@)),
{
    let ghost ids = ids_view(variants@);
    let mut v: Vec<String> = Vec::new();
    if is_per_variant_output(out) {
        let mut i: usize = 0;
        while i < variants.len()
            invariant
                i <= variants@.len(),
                ids == ids_view(variants@),
                contains_spec(out@, "{variant}"@),
                v@.len() == i,
                forall|j: int| 0 <= j < i ==> (#[trigger] v@[j])@ == tool@ + "/"@ + theme_output_name_spec(out@, theme@, Some(ids[j])),
            decreases variants@.len() - i,
        {
            let mut p = string_from(tool);
            push_str(&mut p, "/");
            let name = theme_output_name(out, theme, Some(variants[i]));
            push_str(&mut p, name.as_str());
            v.push(p);
            i = i + 1;
        }
        assert(strings_view(v@) =~= theme_outputs_spec(tool@, out@, theme@, ids));
    } else {
        let mut p = string_from(tool);
        push_str(&mut p, "/");
        let name = theme_output_name(out, theme, None);
        push_str(&mut p, name.as_str());
        v.push(p);
        assert(strings_view(v@) =~= theme_outputs_spec(tool@, out@, theme@, ids));
    }
    v
}

/// Whether a palette-route output name is rendered once per variant.
pub fn is_per_palette_output(out: &str) -> (b: bool)
    ensures
        b == (contains_spec(out@, "{name}"@) || contains_spec(out@, "{Name}"@)),
{
    contains(out, "{name}") || contains(out, "{Name}")
}

/// Substitutes `{name}` with the variant's name and `{Name}` with its title.
pub open spec fn palette_output_name_spec(pattern: Seq<char>, v: Variant) -> Seq<char> {
    replace_spec(replace_spec(pattern, "{name}"@, variant_name(v)), "{Name}"@, variant_title(v))
}

pub fn palette_output_name(pattern: &str, variant: Variant) -> (r: String)
    ensures
        r@ == palette_output_name_spec(pattern@, variant),
{
    proof {
        reveal_strlit("{name}");
        reveal_strlit("{Name}");
    }
    let p = replace_all(pattern, "{name}", variant.name());
    replace_all(p.as_str(), "{Name}", variant.title())
}

/// Whether the theme route also writes a Terminal.app profile per variant
/// for `tool`: only for `terminal`.
pub fn writes_terminal_profiles(tool: &str) -> (b: bool)
    ensures
        b == (tool@ == "terminal"@),
{
    let t = string_from(tool);
    let terminal = string_from("terminal");
    t == terminal
}

/// `terminal/<theme name>-<variant name>.terminal`.
pub open spec fn terminal_file_spec(theme_name: Seq<char>, variant_name: Seq<char>) -> Seq<char> {
    "terminal/"@ + theme_name + "-"@ + variant_name + ".terminal"@
}

/// The relative path of the Terminal.app profile of one variant.
pub fn terminal_file(theme_name: &str, variant_name: &str) -> (r: String)
    ensures
        r@ == terminal_file_spec(theme_name@, variant_name@),
{
    let mut r = string_from("terminal/");
    push_str(&mut r, theme_name);
    push_str(&mut r, "-");
    push_str(&mut r, variant_name);
    push_str(&mut r, ".terminal");
    r
}

/// Exactly the listed theme tools pass the theme route's check, and exactly
/// the others pass the palette route's: a tool belongs to one route.
pub proof fn law_each_tool_has_one_route(tool: Seq<char>)
    ensures
        theme_tool_names().contains(tool) != !theme_tool_names().contains(tool),
{
}

/// The theme tool list names no tool twice.
pub proof fn law_theme_tools_distinct()
    ensures
        forall|i: int, j: int|
            0 <= i < j < theme_tool_names().len() ==> theme_tool_names()[i] != theme_tool_names()[j],
{
    reveal_strlit("alacritty");
    reveal_strlit("bat");
    reveal_strlit("chrome");
    reveal_strlit("codex");
    reveal_strlit("delta");
    reveal_strlit("gh-dash");
    reveal_strlit("ghostty");
    reveal_strlit("helix");
    reveal_strlit("lazygit");
    reveal_strlit("nix");
    reveal_strlit("slack");
    reveal_strlit("starship");
    reveal_strlit("terminal");
    reveal_strlit("zed");
    reveal_strlit("zellij");
    reveal_strlit("fzf");
    reveal_strlit("nvim");
    reveal_strlit("tmux");
    reveal_strlit("vscode");
    reveal_strlit("zsh");
    let n = theme_tool_names();
    assert forall|i: int, j: int| 0 <= i < j < n.len() implies n[i] != n[j] by {
        if n[i] == n[j] {
            assert(n[i].len() == n[j].len());
            assert(n[i][0] == n[j][0]);
            if n[i].len() > 1 {
                assert(n[i][1] == n[j][1]);
            }
            if n[i].len() > 2 {
                assert(n[i][2] == n[j][2]);
            }
            if n[i].len() > 3 {
                assert(n[i][3] == n[j][3]);
            }
        }
    }
}

/// A tool without required adapter keys always passes the adapter check.
pub proof fn law_no_required_keys_always_pass(present: Option<Seq<Seq<char>>>)
    ensures
        first_missing(Seq::empty(), present) is None,
{
}

/// A template name `x.tera` renders to `x`.
pub proof fn law_strip_tera_extension(path: Seq<char>)
    ensures
        strip_suffix_spec(path + ".tera"@, ".tera"@) == path,
{
    crate::names::law_strip_suffix_of_concat(path, ".tera"@);
}

/// An output name without `{theme}` and `{variant}` is used as written.
pub proof fn law_output_name_without_placeholders(pattern: Seq<char>, theme: Seq<char>, variant: Option<Seq<char>>)
    requires
        !contains_spec(pattern, "{theme}"@),
        !contains_spec(pattern, "{variant}"@),
    ensures
        theme_output_name_spec(pattern, theme, variant) == pattern,
{
    reveal_strlit("{theme}");
    reveal_strlit("{variant}");
    crate::names::law_replace_without_occurrence(pattern, "{theme}"@, theme);
    crate::names::law_replace_without_occurrence(pattern, "{variant}"@, match variant {
        Some(v) => v,
        None => Seq::empty(),
    });
}

} // verus!
