use bunnylol::config::BunnylolConfig;
use bunnylol::dispatch::dispatch_outcome;
use bunnylol::dispatch::get_all_commands;
use bunnylol::dispatch::process_command_with_fallback;
use bunnylol::dispatch::resolve;
use bunnylol::dispatch::BunnylolCommandRegistry;
use bunnylol::plugin::load_plugin;
use bunnylol::plugin::BunnylolCommandInfo;
use bunnylol::registry::PluginFile;
use bunnylol::registry::PluginRegistry;

const GH_PLUGIN: &str = r#"
function info()
    return {
        bindings = { "gh" },
        description = "GitHub",
        example = "gh facebook/bunnylol",
    }
end

function process(args)
    if args == "gh facebook/bunnylol" then
        return "https://github.com/facebook/bunnylol"
    end
    return "https://github.com/" .. get_args(args, "gh")
end
"#;

const IG_PLUGIN: &str = r#"
function info()
    return {
        bindings = { "ig", "instagram" },
        description = "Instagram",
        example = "ig reels",
    }
end

function process(args)
    return "https://www.instagram.com/" .. url_encode_path(get_args(args, "ig"))
end
"#;

const NO_PROCESS_PLUGIN: &str = r#"
function info()
    return {
        bindings = { "np" },
        description = "no process entry point",
        example = "np",
    }
end
"#;

const ECHO_PLUGIN: &str = r#"
function info()
    return { bindings = { "gh" }, description = "echo", example = "gh x" }
end

function process(args)
    return "echo:" .. args
end
"#;

const FAILING_PLUGIN: &str = r#"
function info()
    return { bindings = { "boom" }, description = "always fails", example = "boom" }
end

function process(args)
    error("plugin failure")
end
"#;

fn registry_of(files: &[(&str, &str)]) -> PluginRegistry {
    let files: Vec<PluginFile> = files
        .iter()
        .map(|(path, source)| PluginFile {
            path: path.to_string(),
            source: source.to_string(),
        })
        .collect();
    PluginRegistry::rebuild_from_files(&files, Some("commands"))
}

#[test]
fn idempotent_load_yields_identical_command_info() {
    let first = load_plugin(GH_PLUGIN, "user").expect("plugin should load");
    let second = load_plugin(GH_PLUGIN, "user").expect("plugin should load");
    let a = first.info();
    let b = second.info();
    assert_eq!(a.bindings, b.bindings);
    assert_eq!(a.description, b.description);
    assert_eq!(a.example, b.example);
    assert_eq!(a.origin, b.origin);
}

#[test]
fn deterministic_dispatch_same_input_same_url() {
    let registry = registry_of(&[("commands/gh.lua", GH_PLUGIN)]);
    let config = BunnylolConfig::default();
    let first = resolve(&registry, &config, "gh torvalds/linux");
    let second = resolve(&registry, &config, "gh torvalds/linux");
    assert_eq!(first, second);
    let miss1 = resolve(&registry, &config, "tw something");
    let miss2 = resolve(&registry, &config, "tw something");
    assert_eq!(miss1, miss2);
}

#[test]
fn alias_applies_to_entire_trimmed_input_only() {
    let registry = registry_of(&[("commands/gh.lua", ECHO_PLUGIN)]);
    let mut config = BunnylolConfig::default();
    config
        .aliases
        .insert("work".to_string(), "gh myorg".to_string());

    // The whole trimmed input matches the alias word: substituted.
    assert_eq!(resolve(&registry, &config, "  work  "), "echo:gh myorg");

    // Only the leading token matches: no substitution, so no plugin is
    // bound to "work" and the input falls back verbatim.
    let url = resolve(&registry, &config, "work extra");
    assert_eq!(url, "https://www.google.com/search?q=work%20extra");
}

#[test]
fn fallback_is_well_formed_for_unbound_token() {
    let registry = PluginRegistry::new();
    let config = BunnylolConfig::default();
    let url = resolve(&registry, &config, "tw @fbOpenSource");
    assert!(url.starts_with("https://www.google.com/search?q="));
    assert_eq!(url, "https://www.google.com/search?q=tw%20%40fbOpenSource");
}

#[test]
fn hot_reload_scan_reflects_added_and_removed_files() {
    let registry = registry_of(&[("commands/gh.lua", GH_PLUGIN)]);
    let config = BunnylolConfig::default();
    assert_eq!(
        resolve(&registry, &config, "gh facebook/bunnylol"),
        "https://github.com/facebook/bunnylol"
    );

    // A later scan that also finds the Instagram file picks it up.
    let registry = registry_of(&[
        ("commands/gh.lua", GH_PLUGIN),
        ("commands/ig.lua", IG_PLUGIN),
    ]);
    assert_eq!(
        resolve(&registry, &config, "ig reels"),
        "https://www.instagram.com/reels"
    );

    // A scan without the file no longer resolves its binding.
    let registry = registry_of(&[("commands/ig.lua", IG_PLUGIN)]);
    let url = resolve(&registry, &config, "gh facebook/bunnylol");
    assert!(url.starts_with("https://www.google.com/search?q="));
}

#[test]
fn multi_alias_plugin_listed_once() {
    let registry = registry_of(&[("commands/ig.lua", IG_PLUGIN)]);
    let commands = get_all_commands(&registry);
    assert_eq!(commands.len(), 1);
    assert_eq!(commands[0].bindings, vec!["ig", "instagram"]);
    assert_eq!(commands[0].description, "Instagram");
    assert_eq!(commands[0].origin, "user");

    let infos = BunnylolCommandRegistry::get_all_commands_with_plugins(&registry);
    assert_eq!(infos.len(), 1);
    assert_eq!(infos[0].bindings, vec!["ig", "instagram"]);
}

#[test]
fn scenario_unbound_token_uses_default_provider() {
    let registry = PluginRegistry::new();
    let config = BunnylolConfig::default();
    let url = resolve(&registry, &config, "tw");
    assert!(url.contains("q=tw"));
    assert!(url.contains("www.google.com"));
}

#[test]
fn scenario_plugin_url_returned_verbatim() {
    let registry = registry_of(&[("commands/gh.lua", GH_PLUGIN)]);
    let config = BunnylolConfig::default();
    assert_eq!(
        resolve(&registry, &config, "gh facebook/bunnylol"),
        "https://github.com/facebook/bunnylol"
    );
}

#[test]
fn scenario_alias_substitutes_then_dispatches() {
    let registry = registry_of(&[("commands/gh.lua", GH_PLUGIN)]);
    let mut config = BunnylolConfig::default();
    config
        .aliases
        .insert("work".to_string(), "gh myorg".to_string());
    assert_eq!(
        resolve(&registry, &config, "work"),
        "https://github.com/myorg"
    );
}

#[test]
fn scenario_invalid_file_skipped_siblings_load() {
    let registry = registry_of(&[
        ("commands/np.lua", NO_PROCESS_PLUGIN),
        ("commands/gh.lua", GH_PLUGIN),
    ]);
    let config = BunnylolConfig::default();

    // The file without `process` is skipped at load.
    let url = resolve(&registry, &config, "np anything");
    assert!(url.starts_with("https://www.google.com/search?q="));

    // Its sibling still loaded.
    assert_eq!(
        resolve(&registry, &config, "gh facebook/bunnylol"),
        "https://github.com/facebook/bunnylol"
    );
}

#[test]
fn execution_failure_degrades_to_fallback() {
    let registry = registry_of(&[("commands/boom.lua", FAILING_PLUGIN)]);
    let config = BunnylolConfig::default();
    let url = resolve(&registry, &config, "boom now");
    assert_eq!(url, "https://www.google.com/search?q=boom%20now");
}

#[test]
fn process_command_without_config_falls_back_to_google() {
    let registry = PluginRegistry::new();
    let url = BunnylolCommandRegistry::process_command(&registry, "tw", "tw hello");
    assert_eq!(url, "https://www.google.com/search?q=tw%20hello");
    let url = process_command_with_fallback(&registry, "tw", "tw hello", None);
    assert_eq!(url, "https://www.google.com/search?q=tw%20hello");
}

#[test]
fn dispatch_outcome_returns_produced_url_verbatim() {
    let url = dispatch_outcome(Some("https://example.com/x".to_string()), None, "gh x");
    assert_eq!(url, "https://example.com/x");
    let url = dispatch_outcome(None, None, "gh x");
    assert_eq!(url, "https://www.google.com/search?q=gh%20x");
}

#[test]
fn process_command_with_config_uses_configured_engine() {
    let registry = PluginRegistry::new();
    let mut config = BunnylolConfig::default();
    config.default_search = "ddg".to_string();
    let url = BunnylolCommandRegistry::process_command_with_config(
        &registry,
        "tw",
        "tw hello",
        Some(&config),
    );
    assert_eq!(url, "https://duckduckgo.com/?q=tw%20hello");
}

#[test]
fn command_info_from_borrowed_parts() {
    let info = BunnylolCommandInfo::new(&["ig", "instagram"], "Instagram", "ig reels");
    assert_eq!(info.bindings, vec!["ig", "instagram"]);
    assert_eq!(info.description, "Instagram");
    assert_eq!(info.example, "ig reels");
}

#[test]
fn binding_conflict_later_file_wins() {
    let registry = registry_of(&[
        ("commands/gh.lua", GH_PLUGIN),
        ("vendor/gh2.lua", ECHO_PLUGIN),
    ]);
    let config = BunnylolConfig::default();
    assert_eq!(resolve(&registry, &config, "gh x"), "echo:gh x");
}

#[test]
fn non_lua_files_are_ignored_by_scan() {
    let registry = registry_of(&[
        ("commands/readme.txt", GH_PLUGIN),
        ("commands/.lua", GH_PLUGIN),
    ]);
    let config = BunnylolConfig::default();
    let url = resolve(&registry, &config, "gh x");
    assert!(url.starts_with("https://www.google.com/search?q="));
}

#[test]
fn origin_derived_from_parent_directory() {
    let registry = registry_of(&[("vendor-pack/gh.lua", GH_PLUGIN)]);
    let commands = get_all_commands(&registry);
    assert_eq!(commands.len(), 1);
    assert_eq!(commands[0].origin, "vendor-pack");
}

#[test]
fn origin_user_only_for_the_user_plugin_root() {
    // A vendor directory that happens to be named "commands" keeps its
    // name verbatim; only the canonical user plugin root maps to "user".
    let files = vec![
        PluginFile {
            path: "/home/u/.local/share/bunnylol/commands/gh.lua".to_string(),
            source: GH_PLUGIN.to_string(),
        },
        PluginFile {
            path: "/opt/homebrew/share/bunnylol/commands/ig.lua".to_string(),
            source: IG_PLUGIN.to_string(),
        },
    ];
    let registry = PluginRegistry::rebuild_from_files(
        &files,
        Some("/home/u/.local/share/bunnylol/commands"),
    );
    let mut commands = get_all_commands(&registry);
    commands.sort_by(|a, b| a.bindings[0].cmp(&b.bindings[0]));
    assert_eq!(commands.len(), 2);
    assert_eq!(commands[0].bindings[0], "gh");
    assert_eq!(commands[0].origin, "user");
    assert_eq!(commands[1].bindings[0], "ig");
    assert_eq!(commands[1].origin, "commands");
}

#[test]
fn sandbox_scripts_have_no_ambient_capabilities() {
    // A script that reaches for the filesystem, the environment, module
    // loading, or the file loaders fails at load and is skipped.
    let grabby = r#"
local f = io.open("/etc/hostname")

function info()
    return { bindings = { "spy" }, description = "spy", example = "spy" }
end

function process(args)
    return "spied"
end
"#;
    assert!(load_plugin(grabby, "user").is_none());
    let env_reader = r#"
function info()
    return { bindings = { "env" }, description = "env", example = "env" }
end

function process(args)
    return os.getenv("HOME")
end
"#;
    // `os` is absent, so execution fails and dispatch falls back.
    let registry = registry_of(&[("commands/env.lua", env_reader)]);
    let config = BunnylolConfig::default();
    let url = resolve(&registry, &config, "env x");
    assert_eq!(url, "https://www.google.com/search?q=env%20x");
    let file_loader = r#"
function info()
    return { bindings = { "dl" }, description = "dl", example = "dl" }
end

function process(args)
    return dofile("/etc/hostname")
end
"#;
    let registry = registry_of(&[("commands/dl.lua", file_loader)]);
    let url = resolve(&registry, &config, "dl x");
    assert_eq!(url, "https://www.google.com/search?q=dl%20x");
}

#[test]
fn empty_bindings_plugin_is_skipped() {
    let empty = r#"
function info()
    return { bindings = {}, description = "none", example = "none" }
end

function process(args)
    return "never"
end
"#;
    assert!(load_plugin(empty, "user").is_none());
    let repeated = r#"
function info()
    return { bindings = { "x", "x" }, description = "dup", example = "x" }
end

function process(args)
    return "never"
end
"#;
    assert!(load_plugin(repeated, "user").is_none());
    assert!(load_plugin("this is not lua at all (", "user").is_none());
}
