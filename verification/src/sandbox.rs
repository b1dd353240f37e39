//! The plugin execution sandbox. Every invocation — metadata read or
//! command execution — gets its own fresh Lua interpreter with a fixed
//! surface of pure string helpers installed. The interpreter is an outside
//! engine: what a given script computes is not modelled, so callers state
//! only what holds of every outcome.

use vstd::prelude::*;

verus! {

#[verifier::external_type_specification]
#[verifier::external_body]
pub struct ExLua(mlua::Lua);

/// Raw metadata as a plugin script reports it, before validation: the
/// binding words, the descriptive strings, and whether the script defines a
/// `process` entry point.
pub struct PluginMeta {
    pub bindings: Vec<String>,
    pub description: String,
    pub example: String,
    pub has_process: bool,
}

/// Relies on `mlua::Lua::new_with`: a fresh interpreter loading only the
/// coroutine, table, string, utf8 and math libraries — no `io`, `os`,
/// `package` or `debug` — and with the base library's file loaders removed,
/// so a script has no ambient filesystem, environment, or process access.
#[verifier::external_body]
fn lua_new() -> (r: Option<mlua::Lua>) {
    let libs = mlua::StdLib::COROUTINE | mlua::StdLib::TABLE | mlua::StdLib::STRING
        | mlua::StdLib::UTF8 | mlua::StdLib::MATH;
    let lua = mlua::Lua::new_with(libs, mlua::LuaOptions::default()).ok()?;
    let g = lua.globals();
    g.set("dofile", mlua::Nil).ok()?;
    g.set("loadfile", mlua::Nil).ok()?;
    Some(lua)
}

/// Relies on `mlua::Lua::create_function` and `Table::set` to expose the
/// `url_encode`, `url_encode_path` and `get_args` helpers to scripts; each
/// closure only calls a verified function of this crate.
#[verifier::external_body]
fn register_encode_helpers(lua: &mlua::Lua) -> (ok: bool) {
    let g = lua.globals();
    let r: mlua::Result<()> = (|| {
        g.set("url_encode", lua.create_function(|_, s: String| Ok(crate::encode::percent_encode_query(&s)))?)?;
        g.set("url_encode_path", lua.create_function(|_, s: String| Ok(crate::encode::percent_encode_path(&s)))?)?;
        g.set("get_args", lua.create_function(|_, (f, b): (String, String)| Ok(crate::text::helper_get_args(&f, &b)))?)?;
        Ok(())
    })();
    r.is_ok()
}

/// Relies on `mlua::Lua::create_function` and `Table::set` to expose the
/// `trim`, `split`, `upper` and `lower` helpers to scripts; each closure
/// only calls a verified or contracted function of this crate, plus the
/// conversion of a borrowed result into an owned string.
#[verifier::external_body]
fn register_text_helpers(lua: &mlua::Lua) -> (ok: bool) {
    let g = lua.globals();
    let r: mlua::Result<()> = (|| {
        g.set("trim", lua.create_function(|_, s: String| Ok(crate::text::trim_str(&s).to_owned()))?)?;
        g.set("split", lua.create_function(|_, (s, d): (String, String)| Ok(crate::text::split_str(&s, &d)))?)?;
        g.set("upper", lua.create_function(|_, s: String| Ok(crate::text::upper_str(&s)))?)?;
        g.set("lower", lua.create_function(|_, s: String| Ok(crate::text::lower_str(&s)))?)?;
        Ok(())
    })();
    r.is_ok()
}

/// Relies on `mlua::Lua::create_function` and `Table::set` to expose the
/// `starts_with`, `ends_with` and `contains` helpers to scripts; each
/// closure only calls a verified function of this crate.
#[verifier::external_body]
fn register_predicate_helpers(lua: &mlua::Lua) -> (ok: bool) {
    let g = lua.globals();
    let r: mlua::Result<()> = (|| {
        g.set("starts_with", lua.create_function(|_, (s, p): (String, String)| Ok(crate::text::starts_with_str(&s, &p)))?)?;
        g.set("ends_with", lua.create_function(|_, (s, p): (String, String)| Ok(crate::text::ends_with_str(&s, &p)))?)?;
        g.set("contains", lua.create_function(|_, (s, p): (String, String)| Ok(crate::text::contains_str(&s, &p)))?)?;
        Ok(())
    })();
    r.is_ok()
}

/// Installs the fixed helper surface into a fresh interpreter: the percent
/// encoders, argument extraction, trimming, splitting, the substring
/// predicates, and case folding. All are pure; none performs I/O or keeps
/// state across invocations. Returns whether every registration succeeded.
pub fn register_helpers(lua: &mlua::Lua) -> bool {
    let a = register_encode_helpers(lua);
    let b = register_text_helpers(lua);
    let c = register_predicate_helpers(lua);
    a && b && c
}

/// Relies on mlua: executes the script in the given interpreter, calls its
/// zero-argument `info` entry point, and reads the returned table's
/// `bindings`, `description` and `example` fields; also reports whether the
/// script defined a `process` function. `None` on any script error. The
/// values are the script's own, so nothing is promised of them.
#[verifier::external_body]
fn lua_read_info(lua: &mlua::Lua, source: &str) -> (r: Option<PluginMeta>) {
    lua.load(source).exec().ok()?;
    let info_fn: mlua::Function = lua.globals().get("info").ok()?;
    let info_table: mlua::Table = info_fn.call(()).ok()?;
    let bindings_table: mlua::Table = info_table.get("bindings").ok()?;
    let bindings: Vec<String> = bindings_table.sequence_values::<String>().flatten().collect();
    let description: String = info_table.get("description").ok()?;
    let example: String = info_table.get("example").ok()?;
    let has_process = lua.globals().get::<mlua::Function>("process").is_ok();
    Some(PluginMeta { bindings, description, example, has_process })
}

/// Relies on mlua: executes the script in the given interpreter and calls
/// its `process` entry point on the full argument text, expecting a string
/// back. `None` on any script error, missing entry point, or non-string
/// return. The value is the script's own, so nothing is promised of it.
#[verifier::external_body]
fn lua_call_process(lua: &mlua::Lua, source: &str, args: &str) -> (r: Option<String>) {
    lua.load(source).exec().ok()?;
    let process: mlua::Function = lua.globals().get("process").ok()?;
    process.call(args).ok()
}

/// Reads a plugin script's metadata: executes it in a fresh sandboxed
/// interpreter and calls its `info` entry point (the name existing plugin
/// files define for their metadata function). `None` on any failure; the
/// reported values are the script's own, so nothing is promised of them.
pub fn read_plugin_meta(source: &str) -> Option<PluginMeta> {
    let lua = match lua_new() {
        Some(lua) => lua,
        None => {
            return None;
        },
    };
    if !register_helpers(&lua) {
        return None;
    }
    lua_read_info(&lua, source)
}

/// Executes a plugin's `process` entry point on the full argument text, in
/// a fresh sandboxed interpreter. `None` on any script failure; the caller
/// treats that exactly like a lookup miss and falls back.
pub fn execute_plugin_source(source: &str, args: &str) -> Option<String> {
    let lua = match lua_new() {
        Some(lua) => lua,
        None => {
            return None;
        },
    };
    if !register_helpers(&lua) {
        return None;
    }
    lua_call_process(&lua, source, args)
}

} // verus!
