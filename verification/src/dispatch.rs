//! The command dispatcher: alias resolution on the whole trimmed input,
//! tokenization, registry lookup, sandboxed execution, and the universal
//! search-engine fallback. Resolution always yields exactly one URL; every
//! failure mode degrades to the fallback instead of surfacing.

use vstd::prelude::*;
use vstd::string::StringExecFns;

use crate::config::cfg_engine;
use crate::config::resolved_command_spec;
use crate::config::search_url_spec;
use crate::config::BunnylolConfig;
use crate::encode::percent_encode_query;
use crate::plugin::clone_string_vec;
use crate::plugin::BunnylolCommandInfo;
use crate::plugin::BunnylolInfoView;
use crate::plugin::CommandInfo;
use crate::plugin::CommandInfoView;
use crate::plugin::PluginView;
use crate::registry::dedup_represents;
use crate::registry::held_in;
use crate::registry::PluginRegistry;
use crate::sandbox::execute_plugin_source;
use crate::text::trim_spec;
use crate::text::trim_str;
use crate::utils::get_command_from_query_string;
use crate::utils::leading_token;

verus! {

/// The input after alias resolution: the alias target when the whole
/// trimmed raw input is a bound alias word, else the trimmed input itself.
pub open spec fn resolved_input_spec(aliases: Map<Seq<char>, Seq<char>>, raw: Seq<char>) -> Seq<
    char,
> {
    resolved_command_spec(aliases, trim_spec(raw))
}

/// Turns one plugin-execution outcome into the dispatch result: a produced
/// URL is returned verbatim; on no outcome the fallback search URL for the
/// full post-alias input is built from the configured engine (the default
/// provider when no configuration is given).
pub fn dispatch_outcome(
    exec_result: Option<String>,
    config: Option<&BunnylolConfig>,
    full_args: &str,
) -> (r: String)
    ensures
        exec_result is Some ==> r@ == exec_result->0@,
        exec_result is None ==> r@ == search_url_spec(cfg_engine(config), full_args@),
{
    match &exec_result {
        Some(url) => {
            proof {
                assert(exec_result is Some);
            }
            url.clone()
        },
        None => {
            match config {
                Some(cfg) => {
                    let out = cfg.get_search_url(full_args);
                    proof {
                        assert(cfg_engine(config) == cfg.default_search@);
                        assert(out@ == search_url_spec(cfg_engine(config), full_args@));
                    }
                    out
                },
                None => {
                    proof {
                        reveal_strlit("google");
                        reveal_strlit("ddg");
                        reveal_strlit("duckduckgo");
                        reveal_strlit("bing");
                        assert(cfg_engine(config) == "google"@);
                        assert("google"@ != "ddg"@);
                    }
                    let mut s = ("https://www.google.com/search?q=").to_owned();
                    let encoded = percent_encode_query(full_args);
                    s.append(encoded.as_str());
                    proof {
                        assert(s@ == search_url_spec("google"@, full_args@));
                    }
                    s
                },
            }
        },
    }
}

/// Dispatches one already-tokenized command: looks the token up in the
/// snapshot, executes the plugin's `process` on the full argument text on a
/// hit, and falls back to the search URL on a miss or on any execution
/// failure — the two are indistinguishable to the caller.
pub fn process_command_with_fallback(
    registry: &PluginRegistry,
    command: &str,
    full_args: &str,
    config: Option<&BunnylolConfig>,
) -> (r: String)
    requires
        registry.wf(),
    ensures
        !registry@.contains_key(command@) ==> r@ == search_url_spec(
            cfg_engine(config),
            full_args@,
        ),
{
    match registry.lookup(command) {
        Some(plugin) => {
            let out = execute_plugin_source(plugin.source.as_str(), full_args);
            dispatch_outcome(out, config, full_args)
        },
        None => dispatch_outcome(None, config, full_args),
    }
}

/// The public entry point of command resolution: trims the raw input,
/// substitutes an alias bound to the entire trimmed input, takes the
/// leading token as the binding candidate, and dispatches. Always returns
/// exactly one URL.
pub fn resolve(registry: &PluginRegistry, config: &BunnylolConfig, raw_input: &str) -> (r: String)
    requires
        registry.wf(),
        config.wf(),
    ensures
        !registry@.contains_key(leading_token(resolved_input_spec(config.aliases@, raw_input@)))
            ==> r@ == search_url_spec(
            config.default_search@,
            resolved_input_spec(config.aliases@, raw_input@),
        ),
{
    let trimmed = trim_str(raw_input);
    let input = config.resolve_command(trimmed);
    let command = get_command_from_query_string(input.as_str());
    process_command_with_fallback(registry, command, input.as_str(), Some(config))
}

/// The registry facade: commands are implemented by loaded plugins, and a
/// snapshot is dispatched against explicitly.
pub struct BunnylolCommandRegistry;

impl BunnylolCommandRegistry {
    /// Processes a command string against the snapshot and returns the
    /// destination URL, falling back to the default provider.
    pub fn process_command(registry: &PluginRegistry, command: &str, full_args: &str) -> (r: String)
        requires
            registry.wf(),
        ensures
            !registry@.contains_key(command@) ==> r@ == search_url_spec("google"@, full_args@),
    {
        Self::process_command_with_config(registry, command, full_args, None)
    }

    /// Processes a command string, using the configuration's search engine
    /// for the fallback when one is given.
    pub fn process_command_with_config(
        registry: &PluginRegistry,
        command: &str,
        full_args: &str,
        config: Option<&BunnylolConfig>,
    ) -> (r: String)
        requires
            registry.wf(),
        ensures
            !registry@.contains_key(command@) ==> r@ == search_url_spec(
                cfg_engine(config),
                full_args@,
            ),
    {
        process_command_with_fallback(registry, command, full_args, config)
    }

    /// All loaded commands, one entry per plugin, without origin tags: the
    /// listing entries deduplicate the snapshot by primary binding.
    pub fn get_all_commands_with_plugins(registry: &PluginRegistry) -> (r: Vec<
        BunnylolCommandInfo,
    >)
        requires
            registry.wf(),
        ensures
            listing_sans_origin_matches(registry@, r.deep_view()),
    {
        let all = get_all_commands(registry);
        let n = all.len();
        let mut r: Vec<BunnylolCommandInfo> = Vec::new();
        let mut i: usize = 0;
        while i < n
            invariant
                0 <= i <= n,
                n == all@.len(),
                r@.len() == i,
                forall|e: int| 0 <= e < i ==> (#[trigger] r@[e])@ == all@[e]@.sans_origin(),
            decreases n - i,
        {
            let c = &all[i];
            let info = BunnylolCommandInfo {
                bindings: clone_string_vec(&c.bindings),
                description: c.description.clone(),
                example: c.example.clone(),
            };
            proof {
                assert(info@ =~= all@[i as int]@.sans_origin());
            }
            r.push(info);
            i = i + 1;
        }
        proof {
            let full = all.deep_view();
            let infos = r.deep_view();
            assert(forall|e: int| 0 <= e < full.len() ==> #[trigger] full[e] == all@[e]@);
            assert(forall|e: int| 0 <= e < infos.len() ==> #[trigger] infos[e] == r@[e]@);
            assert forall|e: int| 0 <= e < full.len() implies #[trigger] infos[e]
                == full[e].sans_origin() by {
                assert(r@[e]@ == all@[e]@.sans_origin());
            }
            lemma_listing_sans_origin(registry@, full, infos);
        }
        r
    }
}

/// Some key of the snapshot holds a descriptor with this listing
/// projection.
#[verifier::opaque]
pub open spec fn listed_in(reg: Map<Seq<char>, PluginView>, iv: CommandInfoView) -> bool {
    exists|k: Seq<char>| reg.contains_key(k) && iv == reg[k].info_view()
}

/// As `listed_in`, for a listing entry without an origin tag.
#[verifier::opaque]
pub open spec fn listed_sans_origin_in(
    reg: Map<Seq<char>, PluginView>,
    iv: BunnylolInfoView,
) -> bool {
    exists|k: Seq<char>| reg.contains_key(k) && iv == reg[k].info_view().sans_origin()
}

/// The listing entries deduplicate the snapshot by primary binding: they
/// are pairwise distinct in it, each is the projection of a descriptor the
/// snapshot holds, and every descriptor held is represented by its primary
/// binding.
#[verifier::opaque]
pub open spec fn listing_matches(
    reg: Map<Seq<char>, PluginView>,
    infos: Seq<CommandInfoView>,
) -> bool {
    &&& forall|a: int, b: int|
        0 <= a < b < infos.len() ==> (#[trigger] infos[a]).bindings[0] != (
        #[trigger] infos[b]).bindings[0]
    &&& forall|a: int| 0 <= a < infos.len() ==> listed_in(reg, #[trigger] infos[a])
    &&& forall|k: Seq<char>|
        #![trigger reg.contains_key(k)]
        reg.contains_key(k) ==> exists|a: int|
            0 <= a < infos.len() && infos[a].bindings[0] == reg[k].primary()
}

/// As `listing_matches`, for the listing without origin tags.
#[verifier::opaque]
pub open spec fn listing_sans_origin_matches(
    reg: Map<Seq<char>, PluginView>,
    infos: Seq<BunnylolInfoView>,
) -> bool {
    &&& forall|a: int, b: int|
        0 <= a < b < infos.len() ==> (#[trigger] infos[a]).bindings[0] != (
        #[trigger] infos[b]).bindings[0]
    &&& forall|a: int| 0 <= a < infos.len() ==> listed_sans_origin_in(reg, #[trigger] infos[a])
    &&& forall|k: Seq<char>|
        #![trigger reg.contains_key(k)]
        reg.contains_key(k) ==> exists|a: int|
            0 <= a < infos.len() && infos[a].bindings[0] == reg[k].primary()
}

/// A deduplicating representative sequence projects, entry by entry, to a
/// listing that matches the snapshot.
proof fn lemma_listing_from_dedup(
    reg: Map<Seq<char>, PluginView>,
    ps: Seq<PluginView>,
    infos: Seq<CommandInfoView>,
)
    requires
        dedup_represents(reg, ps),
        infos.len() == ps.len(),
        forall|e: int| 0 <= e < ps.len() ==> #[trigger] infos[e] == ps[e].info_view(),
    ensures
        listing_matches(reg, infos),
{
    reveal(dedup_represents);
    reveal(listing_matches);
    assert forall|a: int, b: int| 0 <= a < b < infos.len() implies (
    #[trigger] infos[a]).bindings[0] != (#[trigger] infos[b]).bindings[0] by {
        assert(ps[a].primary() != ps[b].primary());
        assert(infos[a].bindings[0] == ps[a].primary());
        assert(infos[b].bindings[0] == ps[b].primary());
    }
    assert forall|a: int| 0 <= a < infos.len() implies listed_in(reg, #[trigger] infos[a]) by {
        assert(infos[a] == ps[a].info_view());
        assert(held_in(reg, ps[a]));
        assert(listed_in(reg, infos[a])) by {
            reveal(held_in);
            reveal(listed_in);
            let k = choose|k: Seq<char>| reg.contains_key(k) && reg[k] == ps[a];
            assert(reg.contains_key(k) && infos[a] == reg[k].info_view());
        }
    }
    assert forall|k: Seq<char>| #[trigger] reg.contains_key(k) implies exists|a: int|
        0 <= a < infos.len() && infos[a].bindings[0] == reg[k].primary() by {
        let a = choose|a: int| 0 <= a < ps.len() && ps[a].primary() == reg[k].primary();
        assert(infos[a] == ps[a].info_view());
        assert(infos[a].bindings[0] == ps[a].primary());
        assert(infos[a].bindings[0] == reg[k].primary());
    }
    assert(listing_matches(reg, infos));
}

/// Dropping the origin tag entry by entry keeps a listing matching.
proof fn lemma_listing_sans_origin(
    reg: Map<Seq<char>, PluginView>,
    full: Seq<CommandInfoView>,
    infos: Seq<BunnylolInfoView>,
)
    requires
        listing_matches(reg, full),
        infos.len() == full.len(),
        forall|e: int| 0 <= e < full.len() ==> #[trigger] infos[e] == full[e].sans_origin(),
    ensures
        listing_sans_origin_matches(reg, infos),
{
    reveal(listing_matches);
    reveal(listing_sans_origin_matches);
    assert forall|a: int, b: int| 0 <= a < b < infos.len() implies (
    #[trigger] infos[a]).bindings[0] != (#[trigger] infos[b]).bindings[0] by {
        assert(full[a].bindings[0] != full[b].bindings[0]);
        assert(infos[a].bindings == full[a].bindings);
        assert(infos[b].bindings == full[b].bindings);
    }
    assert forall|a: int|
        0 <= a < infos.len() implies listed_sans_origin_in(reg, #[trigger] infos[a]) by {
        assert(infos[a] == full[a].sans_origin());
        assert(listed_in(reg, full[a]));
        assert(listed_sans_origin_in(reg, infos[a])) by {
            reveal(listed_in);
            reveal(listed_sans_origin_in);
            let k = choose|k: Seq<char>| reg.contains_key(k) && full[a] == reg[k].info_view();
            assert(reg.contains_key(k) && infos[a] == reg[k].info_view().sans_origin());
        }
    }
    assert forall|k: Seq<char>| #[trigger] reg.contains_key(k) implies exists|a: int|
        0 <= a < infos.len() && infos[a].bindings[0] == reg[k].primary() by {
        let a = choose|a: int| 0 <= a < full.len() && full[a].bindings[0] == reg[k].primary();
        assert(infos[a] == full[a].sans_origin());
        assert(infos[a].bindings[0] == reg[k].primary());
    }
    assert(listing_sans_origin_matches(reg, infos));
}

/// All loaded commands with their origin tags, one entry per plugin however
/// many bindings point at it; ordering for display is the caller's
/// business.
pub fn get_all_commands(registry: &PluginRegistry) -> (r: Vec<CommandInfo>)
    requires
        registry.wf(),
    ensures
        listing_matches(registry@, r.deep_view()),
{
    let uniq = registry.unique_plugins();
    let ghost ps = uniq.deep_view();
    proof {
        assert(forall|a: int| 0 <= a < ps.len() ==> #[trigger] ps[a] == uniq@[a]@);
    }
    let n = uniq.len();
    let mut r: Vec<CommandInfo> = Vec::new();
    let mut i: usize = 0;
    while i < n
        invariant
            0 <= i <= n,
            n == uniq@.len(),
            r@.len() == i,
            ps == uniq.deep_view(),
            ps.len() == n,
            forall|a: int| 0 <= a < ps.len() ==> #[trigger] ps[a] == uniq@[a]@,
            forall|e: int| 0 <= e < i ==> (#[trigger] r@[e])@ == uniq@[e]@.info_view(),
        decreases n - i,
    {
        let info = uniq[i].info();
        r.push(info);
        i = i + 1;
    }
    proof {
        let infos = r.deep_view();
        assert(forall|e: int| 0 <= e < infos.len() ==> #[trigger] infos[e] == r@[e]@);
        assert forall|e: int| 0 <= e < ps.len() implies #[trigger] infos[e]
            == ps[e].info_view() by {
            assert(r@[e]@ == uniq@[e]@.info_view());
        }
        lemma_listing_from_dedup(registry@, ps, infos);
    }
    r
}

/// Alias precedence: substitution applies only when the entire trimmed raw
/// input is a bound alias word. In particular, an alias bound merely to the
/// input's leading token — or to any other proper part of it — leaves the
/// input unchanged.
pub proof fn lemma_alias_whole_input_only(aliases: Map<Seq<char>, Seq<char>>, raw: Seq<char>)
    requires
        !aliases.contains_key(trim_spec(raw)),
    ensures
        resolved_input_spec(aliases, raw) == trim_spec(raw),
{
}

/// The decision the dispatcher takes, as a function of the registry
/// snapshot, the configuration, the raw input, and the one
/// plugin-execution outcome: the outcome's URL on a hit that produced one,
/// the fallback search URL for the post-alias input otherwise.
pub open spec fn resolve_decision(
    registry: Map<Seq<char>, PluginView>,
    aliases: Map<Seq<char>, Seq<char>>,
    engine: Seq<char>,
    raw: Seq<char>,
    exec_outcome: Option<Seq<char>>,
) -> Seq<char> {
    let input = resolved_input_spec(aliases, raw);
    if registry.contains_key(leading_token(input)) && exec_outcome is Some {
        exec_outcome->0
    } else {
        search_url_spec(engine, input)
    }
}

/// Deterministic dispatch: for a fixed registry snapshot and a fixed alias
/// and fallback configuration, the resolution decision is a pure function
/// of the raw input and of the plugin-execution outcome — two resolutions
/// of the same input whose plugin executions return the same value return
/// the same URL. The outcome itself is the script's business; plugin
/// execution keeps no state across invocations.
pub proof fn lemma_deterministic_dispatch(
    registry: Map<Seq<char>, PluginView>,
    aliases: Map<Seq<char>, Seq<char>>,
    engine: Seq<char>,
    raw1: Seq<char>,
    raw2: Seq<char>,
    out1: Option<Seq<char>>,
    out2: Option<Seq<char>>,
)
    requires
        raw1 == raw2,
        out1 == out2,
    ensures
        resolve_decision(registry, aliases, engine, raw1, out1) == resolve_decision(
            registry,
            aliases,
            engine,
            raw2,
            out2,
        ),
{
}

} // verus!
