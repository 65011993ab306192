use katazome::generator::{
    available_theme_tools, check_adapter_keys, check_palette_tool, check_theme_tool,
    is_per_palette_output, is_per_variant_output, is_template_file, palette_output_name,
    palette_route_tools, requested_tools, required_adapter_keys, strip_tera_extension,
    select_tools, template_name, terminal_file, theme_output_name, theme_outputs,
    writes_terminal_profiles,
};
use katazome::names::{capitalize, replace_all};
use katazome::theme::Id;
use katazome::{file_mode, Error, Variant};

#[test]
fn check_adapter_keys_reports_missing_key_when_adapter_table_absent() {
    let err = check_adapter_keys("chrome", &vec!["version".to_string()], None).unwrap_err();
    let message = err.message();
    assert!(message.contains("chrome"), "{message}");
    assert!(message.contains("version"), "{message}");
}

#[test]
fn check_adapter_keys_reports_missing_key_when_table_present_but_key_absent() {
    let table: Vec<String> = Vec::new();
    let err = check_adapter_keys("chrome", &vec!["version".to_string()], Some(&table)).unwrap_err();
    let message = err.message();
    assert!(message.contains("chrome"), "{message}");
    assert!(message.contains("version"), "{message}");
}

#[test]
fn check_adapter_keys_passes_when_every_key_is_present() {
    let table = vec!["publisher".to_string(), "version".to_string()];
    assert!(check_adapter_keys("chrome", &vec!["version".to_string()], Some(&table)).is_ok());
    assert!(check_adapter_keys("helix", &Vec::new(), None).is_ok());
    let err = check_adapter_keys(
        "vscode",
        &vec!["publisher".to_string(), "icon".to_string(), "readme".to_string()],
        Some(&table),
    )
    .unwrap_err();
    assert_eq!(err.message(), "adapters.vscode.icon is required to generate vscode");
}

#[test]
fn required_adapter_keys_of_tools() {
    assert_eq!(required_adapter_keys("chrome"), vec!["version".to_string()]);
    assert_eq!(
        required_adapter_keys("vscode"),
        vec!["publisher".to_string(), "version".to_string()]
    );
    assert!(required_adapter_keys("helix").is_empty());
}

#[test]
fn routes_split_the_tools() {
    let tools = available_theme_tools();
    assert_eq!(
        tools,
        [
            "alacritty", "bat", "chrome", "codex", "delta", "fzf", "gh-dash", "ghostty", "helix",
            "lazygit", "nix", "nvim", "slack", "starship", "terminal", "tmux", "vscode", "zed",
            "zellij", "zsh",
        ]
    );
    assert!(tools.contains(&"helix".to_string()));
    assert!(tools.contains(&"terminal".to_string()));
    for tool in &tools {
        assert!(check_theme_tool(tool).is_ok());
        assert!(matches!(check_palette_tool(tool), Err(Error::ToolMigrated(t)) if &t == tool));
    }
    assert!(matches!(check_theme_tool("emacs"), Err(Error::ToolNotThemed(t)) if t == "emacs"));
    assert!(check_palette_tool("emacs").is_ok());
    let mut sorted = tools.clone();
    sorted.sort();
    sorted.dedup();
    assert_eq!(sorted.len(), tools.len());
}

#[test]
fn output_names() {
    assert_eq!(strip_tera_extension("helix/{theme}-{variant}.toml.tera"), "helix/{theme}-{variant}.toml");
    assert_eq!(strip_tera_extension("README.md"), "README.md");
    let theme: Id = "ninja".parse().unwrap();
    let variant: Id = "shadow".parse().unwrap();
    assert_eq!(
        theme_output_name("{theme}-{variant}.toml", &theme, Some(&variant)),
        "ninja-shadow.toml"
    );
    assert_eq!(theme_output_name("{theme}.json", &theme, None), "ninja.json");
    assert_eq!(theme_output_name("README.md", &theme, Some(&variant)), "README.md");
    assert!(is_per_variant_output("{theme}-{variant}.toml"));
    assert!(!is_per_variant_output("{theme}.toml"));
    assert!(is_per_palette_output("akari-{name}.toml"));
    assert!(is_per_palette_output("Akari-{Name}.toml"));
    assert!(!is_per_palette_output("akari.toml"));
    assert_eq!(palette_output_name("akari-{name}/{Name}.x", Variant::Dawn), "akari-dawn/Dawn.x");
    assert_eq!(terminal_file("Ninja", "Shadow"), "terminal/Ninja-Shadow.terminal");
}

#[test]
fn replace_and_capitalize() {
    assert_eq!(replace_all("a{x}b{x}", "{x}", "yy"), "ayybyy");
    assert_eq!(replace_all("aaa", "aa", "b"), "ba");
    assert_eq!(capitalize("night"), "Night");
    assert_eq!(capitalize(""), "");
    assert_eq!(capitalize("éa"), "éa");
    for v in [Variant::Night, Variant::Dawn] {
        assert_eq!(capitalize(v.name()), v.title());
    }
}

#[test]
fn legacy_generate_tool_rejects_theme_tools() {
    for tool in available_theme_tools() {
        match check_palette_tool(&tool) {
            Err(Error::ToolMigrated(t)) => assert_eq!(t, tool),
            other => panic!("expected ToolMigrated for {tool}, got {other:?}"),
        }
    }
}

#[test]
fn theme_route_rejects_an_unknown_tool() {
    match check_theme_tool("emacs") {
        Err(Error::ToolNotThemed(t)) => assert_eq!(t, "emacs"),
        other => panic!("expected ToolNotThemed, got {other:?}"),
    }
}

#[test]
fn palette_route_keeps_only_tools_without_a_theme_route() {
    let dirs: Vec<String> = ["emacs", "helix", "kitty", "lazygit", "vscode", "terminal", "wezterm"]
        .iter()
        .map(|s| s.to_string())
        .collect();
    assert_eq!(palette_route_tools(&dirs), vec!["emacs", "kitty", "wezterm"]);
    assert!(palette_route_tools(&available_theme_tools()).is_empty());
    assert!(palette_route_tools(&vec![]).is_empty());
}

#[test]
fn templates_are_files_with_a_tera_extension() {
    assert!(is_template_file("helix.tera"));
    assert!(is_template_file("{theme}-{variant}.toml.tera"));
    assert!(is_template_file("..tera"));
    assert!(!is_template_file(".tera"));
    assert!(!is_template_file("README.md"));
    assert!(!is_template_file("tera"));
    assert!(!is_template_file("x.tera.bak"));
}

#[test]
fn template_names_use_forward_slashes() {
    assert_eq!(template_name("helix\\{theme}.toml.tera"), "helix/{theme}.toml.tera");
    assert_eq!(template_name("zsh/zsh.tera"), "zsh/zsh.tera");
}

#[test]
fn all_requests_every_available_tool() {
    let available = vec!["helix".to_string(), "bat".to_string()];
    assert_eq!(requested_tools("all".to_string(), available.clone()), available);
    assert_eq!(requested_tools("zed".to_string(), available), vec!["zed".to_string()]);
}

#[test]
fn artifacts_are_written_with_their_mode() {
    assert_eq!(file_mode(true), 0o755);
    assert_eq!(file_mode(false), 0o644);
}

#[test]
fn only_terminal_writes_profiles() {
    assert!(writes_terminal_profiles("terminal"));
    assert!(!writes_terminal_profiles("helix"));
    assert!(!writes_terminal_profiles("Terminal"));
}

#[test]
fn error_messages_of_the_generator() {
    assert_eq!(Error::UnknownTool("foo".to_string()).message(), "unknown tool foo");
    assert_eq!(
        Error::ToolMigrated("helix".to_string()).message(),
        "tool helix is generated from a theme directory"
    );
    assert_eq!(
        Error::ToolNotThemed("fzf".to_string()).message(),
        "tool fzf is not generated from a theme directory"
    );
    assert_eq!(
        Error::AdapterKeyMissing { tool: "chrome".to_string(), key: "version".to_string() }.message(),
        "adapters.chrome.version is required to generate chrome"
    );
}

fn strings(v: &[&str]) -> Vec<String> {
    v.iter().map(|s| s.to_string()).collect()
}

/// `themes/ninja/theme.toml` declares `tools = ["helix", "nvim", "terminal"]`.
fn ninja_default_tools() -> Vec<String> {
    strings(&["helix", "nvim", "terminal"])
}

#[test]
fn ninja_without_a_tool_flag_generates_exactly_its_default_tools() {
    assert_eq!(select_tools(&vec![], Some(&ninja_default_tools())), ninja_default_tools());
}

#[test]
fn repeated_tool_flags_on_duo_override_its_absent_default_tools() {
    assert_eq!(select_tools(&strings(&["helix", "nvim"]), None), strings(&["helix", "nvim"]));
}

#[test]
fn a_tool_flag_on_ninja_overrides_its_default_tools() {
    assert_eq!(select_tools(&strings(&["zed"]), Some(&ninja_default_tools())), strings(&["zed"]));
}

#[test]
fn tool_all_on_ninja_generates_every_tool_despite_its_default_tools() {
    assert_eq!(
        select_tools(&strings(&["all"]), Some(&ninja_default_tools())),
        available_theme_tools()
    );
    assert_eq!(select_tools(&strings(&["helix", "all"]), None), available_theme_tools());
}

#[test]
fn without_tool_flags_or_theme_tools_every_tool_is_generated() {
    assert_eq!(select_tools(&vec![], None), available_theme_tools());
    assert!(select_tools(&vec![], Some(&vec![])).is_empty());
}

#[test]
fn theme_template_outputs() {
    let theme: Id = "ninja".parse().unwrap();
    let shadow: Id = "shadow".parse().unwrap();
    let dusk: Id = "dusk".parse().unwrap();
    assert_eq!(
        theme_outputs("helix", "{theme}-{variant}.toml", &theme, &vec![&shadow, &dusk]),
        strings(&["helix/ninja-shadow.toml", "helix/ninja-dusk.toml"])
    );
    assert_eq!(
        theme_outputs("vscode", "package.json", &theme, &vec![&shadow, &dusk]),
        strings(&["vscode/package.json"])
    );
    assert_eq!(
        theme_outputs("nix", "{theme}.nix", &theme, &vec![]),
        strings(&["nix/ninja.nix"])
    );
}
