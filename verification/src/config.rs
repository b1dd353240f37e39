//! Configuration of the resolver: the alias table, the fallback search
//! engine, history settings, and the server's display address. Reading and
//! writing the configuration file is the surrounding application's
//! business; the types here carry the values the resolution logic needs.

use vstd::prelude::*;
use vstd::string::StrSliceExecFns;
use vstd::string::StringExecFns;

use crate::encode::pct_query;
use crate::encode::percent_encode_query;
use crate::kvmap::distinct_keys;
use crate::kvmap::kv_map;
use crate::kvmap::lemma_kv_map_at;
use crate::kvmap::lemma_kv_map_contains;
use crate::kvmap::lemma_kv_map_push;
use crate::kvmap::lemma_kv_map_remove;
use crate::paths::APP_PREFIX;
use crate::text::has_prefix;
use crate::text::has_suffix;
use crate::text::push_char;
use crate::text::str_eq;
use crate::text::starts_with_str;
use crate::text::trim_spec;
use crate::text::trim_str;

verus! {

/// Custom command aliases: a finite map from alias word to replacement
/// command string.
pub struct AliasMap {
    entries: Vec<(String, String)>,
}

impl View for AliasMap {
    type V = Map<Seq<char>, Seq<char>>;

    closed spec fn view(&self) -> Map<Seq<char>, Seq<char>> {
        kv_map(self.entries@)
    }
}

impl AliasMap {
    /// Each alias word is bound once.
    pub closed spec fn wf(&self) -> bool {
        distinct_keys(self.entries@)
    }

    pub fn new() -> (r: AliasMap)
        ensures
            r.wf(),
            r@ == Map::<Seq<char>, Seq<char>>::empty(),
    {
        AliasMap { entries: Vec::new() }
    }

    /// Binds `key` to `target`, replacing any earlier binding of `key`.
    pub fn insert(&mut self, key: String, target: String)
        requires
            old(self).wf(),
        ensures
            final(self).wf(),
            final(self)@ == old(self)@.insert(key@, target@),
    {
        let n = self.entries.len();
        let mut i: usize = 0;
        while i < n
            invariant
                0 <= i <= n,
                n == self.entries@.len(),
                distinct_keys(self.entries@),
                self.entries@ == old(self).entries@,
                forall|j: int| 0 <= j < i ==> self.entries@[j].0@ != key@,
            decreases n - i,
        {
            if str_eq(self.entries[i].0.as_str(), key.as_str()) {
                proof {
                    lemma_kv_map_remove(self.entries@, i as int);
                }
                self.entries.remove(i);
                proof {
                    lemma_kv_map_push(self.entries@, (key, target));
                    assert(old(self)@.remove(key@).insert(key@, target@) =~= old(self)@.insert(
                        key@,
                        target@,
                    ));
                }
                self.entries.push((key, target));
                return ;
            }
            i = i + 1;
        }
        proof {
            lemma_kv_map_push(self.entries@, (key, target));
        }
        self.entries.push((key, target));
    }

    /// Looks an alias word up.
    pub fn get(&self, key: &str) -> (r: Option<&String>)
        requires
            self.wf(),
        ensures
            match r {
                Some(v) => self@.contains_key(key@) && v@ == self@[key@],
                None => !self@.contains_key(key@),
            },
    {
        let n = self.entries.len();
        let mut i: usize = 0;
        while i < n
            invariant
                0 <= i <= n,
                n == self.entries@.len(),
                distinct_keys(self.entries@),
                self@ == kv_map(self.entries@),
                forall|j: int| 0 <= j < i ==> self.entries@[j].0@ != key@,
            decreases n - i,
        {
            if str_eq(self.entries[i].0.as_str(), key) {
                proof {
                    lemma_kv_map_at(self.entries@, i as int);
                }
                return Some(&self.entries[i].1);
            }
            i = i + 1;
        }
        proof {
            lemma_kv_map_contains(self.entries@, key@);
        }
        None
    }

    pub fn is_empty(&self) -> (r: bool)
        requires
            self.wf(),
        ensures
            r == (self@ == Map::<Seq<char>, Seq<char>>::empty()),
    {
        let empty = self.entries.len() == 0;
        proof {
            if self.entries@.len() == 0 {
            } else {
                lemma_kv_map_at(self.entries@, 0);
                assert(self@.contains_key(self.entries@[0].0@));
            }
        }
        empty
    }

    /// The alias pairs, for display or serialization; each pair is a
    /// binding of the map.
    pub fn pairs(&self) -> (r: &Vec<(String, String)>)
        requires
            self.wf(),
        ensures
            forall|i: int|
                0 <= i < r@.len() ==> self@.contains_key(#[trigger] r@[i].0@) && self@[r@[i].0@]
                    == r@[i].1@,
            forall|k: Seq<char>|
                self@.contains_key(k) ==> exists|i: int| 0 <= i < r@.len() && #[trigger] r@[i].0@ == k,
    {
        proof {
            assert forall|i: int|
                0 <= i < self.entries@.len() implies self@.contains_key(
                #[trigger] self.entries@[i].0@,
            ) && self@[self.entries@[i].0@] == self.entries@[i].1@ by {
                lemma_kv_map_at(self.entries@, i);
            }
            assert forall|k: Seq<char>| self@.contains_key(k) implies exists|i: int|
                0 <= i < self.entries@.len() && #[trigger] self.entries@[i].0@ == k by {
                lemma_kv_map_contains(self.entries@, k);
            }
        }
        &self.entries
    }
}

/// Command history settings.
pub struct HistoryConfig {
    pub enabled: bool,
    pub max_entries: usize,
}

/// Server settings: where to bind, how to log, and the public-facing URL
/// shown on the bindings page.
pub struct ServerConfig {
    pub port: u16,
    pub address: String,
    pub log_level: String,
    pub server_display_url: Option<String>,
}

/// The whole configuration the resolver consumes.
pub struct BunnylolConfig {
    pub browser: Option<String>,
    pub default_search: String,
    pub aliases: AliasMap,
    pub history: HistoryConfig,
    pub server: ServerConfig,
}

pub(crate) fn default_search_engine() -> (r: String)
    ensures
        r@ == "google"@,
{
    ("google").to_owned()
}

pub(crate) fn default_history_enabled() -> (r: bool)
    ensures
        r == true,
{
    true
}

pub(crate) fn default_max_entries() -> (r: usize)
    ensures
        r == 1000,
{
    1000
}

pub(crate) fn default_port() -> (r: u16)
    ensures
        r == 8085,
{
    8085
}

pub(crate) fn default_address() -> (r: String)
    ensures
        r@ == "127.0.0.1"@,
{
    ("127.0.0.1").to_owned()
}

pub(crate) fn default_log_level() -> (r: String)
    ensures
        r@ == "normal"@,
{
    ("normal").to_owned()
}

impl Default for HistoryConfig {
    fn default() -> (r: Self)
        ensures
            r.enabled == true,
            r.max_entries == 1000,
    {
        HistoryConfig { enabled: default_history_enabled(), max_entries: default_max_entries() }
    }
}

impl Default for ServerConfig {
    fn default() -> (r: Self)
        ensures
            r.port == 8085,
            r.address@ == "127.0.0.1"@,
            r.log_level@ == "normal"@,
            r.server_display_url is None,
    {
        ServerConfig {
            port: default_port(),
            address: default_address(),
            log_level: default_log_level(),
            server_display_url: None,
        }
    }
}

impl Default for BunnylolConfig {
    fn default() -> (r: Self)
        ensures
            r.browser is None,
            r.default_search@ == "google"@,
            r.aliases.wf(),
            r.aliases@ == Map::<Seq<char>, Seq<char>>::empty(),
            r.history.enabled == true,
            r.history.max_entries == 1000,
            r.server.port == 8085,
            r.server.address@ == "127.0.0.1"@,
            r.server.log_level@ == "normal"@,
            r.server.server_display_url is None,
    {
        BunnylolConfig {
            browser: None,
            default_search: default_search_engine(),
            aliases: AliasMap::new(),
            history: HistoryConfig::default(),
            server: ServerConfig::default(),
        }
    }
}

/// The decimal digit character for `n`.
pub open spec fn dec_digit(n: int) -> char
    recommends
        0 <= n < 10,
{
    ((0x30 + n) as u8) as char
}

/// The decimal notation of `n`, most significant digit first.
pub open spec fn dec_str(n: int) -> Seq<char>
    recommends
        n >= 0,
    decreases n,
{
    if n < 10 {
        seq![dec_digit(n)]
    } else {
        dec_str(n / 10).push(dec_digit(n % 10))
    }
}

fn dec_digit_exec(n: u16) -> (c: char)
    requires
        n < 10,
    ensures
        c == dec_digit(n as int),
{
    (0x30 + n as u8) as char
}

/// The decimal notation of `n`.
pub fn u16_to_dec_string(n: u16) -> (r: String)
    ensures
        r@ == dec_str(n as int),
    decreases n,
{
    if n < 10 {
        let mut s = String::new();
        push_char(&mut s, dec_digit_exec(n));
        proof {
            assert(s@ =~= seq![dec_digit(n as int)]);
        }
        s
    } else {
        let mut s = u16_to_dec_string(n / 10);
        push_char(&mut s, dec_digit_exec(n % 10));
        s
    }
}

/// The view of an optional string.
pub open spec fn opt_str_view(o: Option<String>) -> Option<Seq<char>> {
    match o {
        Some(s) => Some(s@),
        None => None,
    }
}

/// The normalized display URL: a URL given with its protocol is kept; a
/// bare local address gets `http://`, any other bare domain `https://`;
/// with no URL configured, `http://localhost:` and the port.
pub open spec fn display_url_spec(display: Option<Seq<char>>, port: u16) -> Seq<char> {
    match display {
        Some(u) => {
            let t = trim_spec(u);
            if has_prefix(t, "http://"@) || has_prefix(t, "https://"@) {
                t
            } else if has_prefix(t, "localhost"@) || has_prefix(t, "127.0.0.1"@) || has_prefix(
                t,
                "0.0.0.0"@,
            ) {
                "http://"@ + t
            } else {
                "https://"@ + t
            }
        },
        None => "http://localhost:"@ + dec_str(port as int),
    }
}

impl ServerConfig {
    /// The public-facing URL of the server, normalized with a protocol.
    pub fn get_display_url(&self) -> (r: String)
        ensures
            r@ == display_url_spec(opt_str_view(self.server_display_url), self.port),
    {
        match &self.server_display_url {
            Some(url) => {
                let t = trim_str(url.as_str());
                if starts_with_str(t, "http://") || starts_with_str(t, "https://") {
                    t.to_owned()
                } else if starts_with_str(t, "localhost") || starts_with_str(t, "127.0.0.1")
                    || starts_with_str(t, "0.0.0.0") {
                    let mut s = ("http://").to_owned();
                    s.append(t);
                    s
                } else {
                    let mut s = ("https://").to_owned();
                    s.append(t);
                    s
                }
            },
            None => {
                let mut s = ("http://localhost:").to_owned();
                let p = u16_to_dec_string(self.port);
                s.append(p.as_str());
                s
            },
        }
    }
}

/// The fallback search URL for `query` on the configured engine: the
/// engine's query endpoint followed by the percent-encoded query.
pub open spec fn search_url_spec(engine: Seq<char>, query: Seq<char>) -> Seq<char> {
    if engine == "ddg"@ || engine == "duckduckgo"@ {
        "https://duckduckgo.com/?q="@ + pct_query(query)
    } else if engine == "bing"@ {
        "https://www.bing.com/search?q="@ + pct_query(query)
    } else {
        "https://www.google.com/search?q="@ + pct_query(query)
    }
}

/// The search engine a dispatch uses: the configured default, or the
/// default provider when no configuration is given.
pub open spec fn cfg_engine(config: Option<&BunnylolConfig>) -> Seq<char> {
    match config {
        Some(c) => c.default_search@,
        None => "google"@,
    }
}

/// Fallback well-formedness: whatever the configured engine and query, the
/// fallback URL is an `https` URL for that engine's query endpoint, ending
/// in its query parameter followed by the percent-encoded full input.
pub proof fn lemma_fallback_well_formed(engine: Seq<char>, query: Seq<char>)
    ensures
        has_prefix(search_url_spec(engine, query), "https://"@),
        has_suffix(search_url_spec(engine, query), "?q="@ + pct_query(query)),
{
    reveal_strlit("https://");
    reveal_strlit("?q=");
    reveal_strlit("https://duckduckgo.com/?q=");
    reveal_strlit("https://www.bing.com/search?q=");
    reveal_strlit("https://www.google.com/search?q=");
    let u = search_url_spec(engine, query);
    let tail = "?q="@ + pct_query(query);
    if engine == "ddg"@ || engine == "duckduckgo"@ {
        assert(u.take(8) =~= "https://"@);
        assert(u.skip(u.len() - tail.len()) =~= tail);
    } else if engine == "bing"@ {
        assert(u.take(8) =~= "https://"@);
        assert(u.skip(u.len() - tail.len()) =~= tail);
    } else {
        assert(u.take(8) =~= "https://"@);
        assert(u.skip(u.len() - tail.len()) =~= tail);
    }
}

/// The command `cmd` after alias substitution: the alias target when `cmd`
/// is exactly a bound alias word, else `cmd` itself.
pub open spec fn resolved_command_spec(aliases: Map<Seq<char>, Seq<char>>, cmd: Seq<char>) -> Seq<
    char,
> {
    if aliases.contains_key(cmd) {
        aliases[cmd]
    } else {
        cmd
    }
}

impl BunnylolConfig {
    /// Every alias word is bound once.
    pub open spec fn wf(&self) -> bool {
        self.aliases.wf()
    }

    /// Resolves `command` through the alias table: the alias target when
    /// the whole string is a bound alias word, else `command` unchanged.
    pub fn resolve_command(&self, command: &str) -> (r: String)
        requires
            self.wf(),
        ensures
            r@ == resolved_command_spec(self.aliases@, command@),
    {
        match self.aliases.get(command) {
            Some(target) => target.clone(),
            None => command.to_owned(),
        }
    }

    /// The search-engine URL for `query` on the configured default engine.
    pub fn get_search_url(&self, query: &str) -> (r: String)
        ensures
            r@ == search_url_spec(self.default_search@, query@),
    {
        let encoded = percent_encode_query(query);
        let e = self.default_search.as_str();
        let mut url: String;
        if str_eq(e, "ddg") || str_eq(e, "duckduckgo") {
            url = ("https://duckduckgo.com/?q=").to_owned();
        } else if str_eq(e, "bing") {
            url = ("https://www.bing.com/search?q=").to_owned();
        } else {
            url = ("https://www.google.com/search?q=").to_owned();
        }
        url.append(encoded.as_str());
        url
    }

    /// The path of the history file under the XDG data directory, when
    /// that directory is available.
    pub fn get_history_path() -> (r: Option<String>)
        ensures
            match r {
                Some(p) => has_suffix(p@, "/history"@) && exists|d: Seq<char>|
                    p@ == d + "/history"@,
                None => true,
            },
    {
        match xdg_data_home_dir(APP_PREFIX) {
            Some(dir) => {
                let p = history_path_in(dir.as_str());
                proof {
                    assert(p@.skip(p@.len() - "/history"@.len()) =~= "/history"@);
                }
                Some(p)
            },
            None => None,
        }
    }
}

/// The `history` file under `dir`.
pub fn history_path_in(dir: &str) -> (r: String)
    ensures
        r@ == dir@ + "/history"@,
{
    let mut s = dir.to_owned();
    s.append("/history");
    s
}

/// Relies on `xdg::BaseDirectories::with_prefix` and `get_data_home`: the
/// XDG data directory for the given prefix, as a UTF-8 string when there is
/// one. The result depends on the process environment, so nothing is
/// promised of its value.
#[verifier::external_body]
fn xdg_data_home_dir(prefix: &str) -> (r: Option<String>) {
    let dirs = xdg::BaseDirectories::with_prefix(prefix);
    let path = dirs.get_data_home()?;
    Some(path.to_str()?.to_string())
}

} // verus!
