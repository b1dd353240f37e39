use bunnylol::config::BunnylolConfig;
use bunnylol::dispatch::resolve;
use bunnylol::encode::percent_encode_path;
use bunnylol::encode::percent_encode_query;
use bunnylol::paths::brew_plugin_dir;
use bunnylol::paths::plugin_dirs;
use bunnylol::registry::PluginFile;
use bunnylol::registry::PluginRegistry;
use bunnylol::text::helper_get_args;
use bunnylol::text::split_str;
use bunnylol::text::trim_str;
use bunnylol::watcher::event_triggers_rebuild;
use bunnylol::watcher::WatchEventKind;

#[test]
fn percent_encoding_query_exact_values() {
    assert_eq!(percent_encode_query("foo bar?"), "foo%20bar%3F");
    assert_eq!(percent_encode_query("abc123"), "abc123");
    assert_eq!(percent_encode_query(""), "");
    assert_eq!(percent_encode_query("café"), "caf%C3%A9");
}

#[test]
fn percent_encoding_path_keeps_slashes() {
    assert_eq!(percent_encode_path("a/b c"), "a/b%20c");
    assert_eq!(percent_encode_path("x?y"), "x%3Fy");
    assert_eq!(percent_encode_path("plain"), "plain");
}

#[test]
fn get_args_strips_binding_and_space() {
    assert_eq!(helper_get_args("gh facebook/bunnylol", "gh"), "facebook/bunnylol");
    assert_eq!(helper_get_args("gh", "gh"), "");
    assert_eq!(helper_get_args("other text", "gh"), "other text");
}

#[test]
fn trim_and_split_behave_like_std() {
    assert_eq!(trim_str("  hello \n"), "hello");
    assert_eq!(trim_str(""), "");
    assert_eq!(trim_str("   "), "");
    let parts = split_str("a,b,,c", ",");
    assert_eq!(parts, vec!["a", "b", "", "c"]);
    let parts = split_str("abc", ",");
    assert_eq!(parts, vec!["abc"]);
    let parts = split_str("", ",");
    assert_eq!(parts, vec![""]);
    // An empty delimiter splits between every character, as `str::split`
    // has it.
    let parts = split_str("ab", "");
    assert_eq!(parts, vec!["", "a", "b", ""]);
    let parts = split_str("", "");
    assert_eq!(parts, vec!["", ""]);
}

#[test]
fn watcher_triggers_only_on_relevant_lua_events() {
    let lua_paths = vec!["dir/x.lua".to_string(), "dir/readme.md".to_string()];
    let other_paths = vec!["dir/readme.md".to_string()];
    assert!(event_triggers_rebuild(&WatchEventKind::Create, &lua_paths));
    assert!(event_triggers_rebuild(&WatchEventKind::Modify, &lua_paths));
    assert!(event_triggers_rebuild(&WatchEventKind::Remove, &lua_paths));
    assert!(!event_triggers_rebuild(&WatchEventKind::Other, &lua_paths));
    assert!(!event_triggers_rebuild(&WatchEventKind::Create, &other_paths));
    assert!(!event_triggers_rebuild(&WatchEventKind::Create, &Vec::new()));
}

#[test]
fn plugin_directories_ordered_user_first() {
    assert_eq!(
        brew_plugin_dir("/opt/homebrew"),
        "/opt/homebrew/share/bunnylol/commands"
    );
    let dirs = plugin_dirs(
        Some("/home/u/.local/share/bunnylol/commands".to_string()),
        Some("/opt/homebrew/share/bunnylol/commands".to_string()),
    );
    assert_eq!(
        dirs,
        vec![
            "/home/u/.local/share/bunnylol/commands".to_string(),
            "/opt/homebrew/share/bunnylol/commands".to_string(),
        ]
    );
    let dirs = plugin_dirs(None, Some("/x".to_string()));
    assert_eq!(dirs, vec!["/x".to_string()]);
    assert!(plugin_dirs(None, None).is_empty());
}

#[test]
fn script_helpers_reach_the_real_implementations() {
    // A plugin that leans on the helper surface: if any helper handed its
    // argument back unchanged, the assertions below would fail.
    let source = r#"
function info()
    return { bindings = { "h" }, description = "helpers", example = "h x" }
end

function process(args)
    local rest = get_args(args, "h")
    local up = upper(rest)
    local low = lower(up)
    local parts = split(low, ",")
    local picked = parts[2]
    if starts_with(picked, "b") and ends_with(picked, "c") and contains(args, "h ") then
        return "https://example.com/" .. url_encode(trim(" " .. up .. " ")) .. "/" .. picked
    end
    return "unexpected"
end
"#;
    let files = vec![PluginFile {
        path: "commands/h.lua".to_string(),
        source: source.to_string(),
    }];
    let registry = PluginRegistry::rebuild_from_files(&files, Some("commands"));
    let config = BunnylolConfig::default();
    assert_eq!(
        resolve(&registry, &config, "h a,b c"),
        "https://example.com/A%2CB%20C/b c"
    );
}
