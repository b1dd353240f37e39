//! The plugin registry: one complete, immutable binding→descriptor snapshot,
//! rebuilt wholesale from a scan and swapped in by the caller, never patched
//! in place. Readers of a snapshot always observe it internally consistent:
//! every key maps to a descriptor that declares that key.

use vstd::prelude::*;

use crate::kvmap::distinct_keys;
use crate::kvmap::kv_map;
use crate::kvmap::lemma_kv_map_at;
use crate::kvmap::lemma_kv_map_contains;
use crate::kvmap::lemma_kv_map_push;
use crate::kvmap::lemma_kv_map_remove;
use crate::plugin::has_lua_ext;
use crate::plugin::has_lua_extension;
use crate::plugin::load_plugin;
use crate::plugin::opt_root_view;
use crate::plugin::origin_from_path;
use crate::plugin::origin_spec;
use crate::plugin::LuaPlugin;
use crate::plugin::PluginView;
use crate::text::str_eq;

verus! {

/// One plugin script file as the scanner found it: its path and its text.
pub struct PluginFile {
    pub path: String,
    pub source: String,
}

/// The descriptor `v` is what a scan of the given script file can
/// contribute: the file has the recognized extension, and `v` carries its
/// text and its path-derived origin.
pub open spec fn traces_to(file: PluginFile, v: PluginView, user_root: Option<Seq<char>>) -> bool {
    has_lua_ext(file.path@) && v.source == file.source@ && v.origin == origin_spec(
        file.path@,
        user_root,
    )
}

/// The binding→descriptor snapshot.
pub struct PluginRegistry {
    entries: Vec<(String, LuaPlugin)>,
}

impl View for PluginRegistry {
    type V = Map<Seq<char>, PluginView>;

    closed spec fn view(&self) -> Map<Seq<char>, PluginView> {
        kv_map(self.entries@)
    }
}

/// The bindings a single plugin contributes, each mapped to it.
pub open spec fn plugin_bindings_map(p: PluginView) -> Map<Seq<char>, PluginView> {
    Map::new(|b: Seq<char>| p.bindings.contains(b), |b: Seq<char>| p)
}

/// The first `k` bindings a plugin contributes.
spec fn partial_bindings_map(p: PluginView, k: int) -> Map<Seq<char>, PluginView> {
    Map::new(|b: Seq<char>| p.bindings.take(k).contains(b), |b: Seq<char>| p)
}

/// The snapshot that a scan of `plugins`, in that order, builds: every
/// plugin's bindings map to it, a later plugin overriding an earlier one on
/// a binding they share.
pub open spec fn snapshot_map(plugins: Seq<PluginView>) -> Map<Seq<char>, PluginView>
    decreases plugins.len(),
{
    if plugins.len() == 0 {
        Map::<Seq<char>, PluginView>::empty()
    } else {
        snapshot_map(plugins.drop_last()).union_prefer_right(
            plugin_bindings_map(plugins.last()),
        )
    }
}

/// Some key of the snapshot holds this descriptor.
#[verifier::opaque]
pub open spec fn held_in(reg: Map<Seq<char>, PluginView>, p: PluginView) -> bool {
    exists|k: Seq<char>| reg.contains_key(k) && reg[k] == p
}

/// `ps` deduplicates the snapshot `reg` by primary binding: its entries are
/// pairwise distinct in their primary binding, each is a descriptor the
/// snapshot holds, and every descriptor the snapshot holds is represented
/// by its primary binding.
#[verifier::opaque]
pub open spec fn dedup_represents(reg: Map<Seq<char>, PluginView>, ps: Seq<PluginView>) -> bool {
    &&& forall|a: int| 0 <= a < ps.len() ==> (#[trigger] ps[a]).wf()
    &&& forall|a: int, b: int|
        0 <= a < b < ps.len() ==> (#[trigger] ps[a]).primary() != (#[trigger] ps[b]).primary()
    &&& forall|a: int| 0 <= a < ps.len() ==> held_in(reg, #[trigger] ps[a])
    &&& forall|k: Seq<char>|
        #![trigger reg.contains_key(k)]
        reg.contains_key(k) ==> exists|a: int|
            0 <= a < ps.len() && ps[a].primary() == reg[k].primary()
}

impl PluginRegistry {
    /// No binding is bound twice, every descriptor is well formed, and
    /// every key is one of its descriptor's bindings.
    pub closed spec fn wf(&self) -> bool {
        &&& distinct_keys(self.entries@)
        &&& forall|i: int|
            0 <= i < self.entries@.len() ==> (#[trigger] self.entries@[i]).1@.wf()
                && self.entries@[i].1@.bindings.contains(self.entries@[i].0@)
    }

    /// The snapshot invariant, on the view: every key present resolves to a
    /// well-formed descriptor whose bindings contain that key.
    pub proof fn lemma_snapshot_invariant(&self)
        requires
            self.wf(),
        ensures
            forall|k: Seq<char>|
                self@.contains_key(k) ==> (#[trigger] self@[k]).wf() && self@[k].bindings.contains(
                    k,
                ),
    {
        assert forall|k: Seq<char>| self@.contains_key(k) implies (#[trigger] self@[k]).wf()
            && self@[k].bindings.contains(k) by {
            lemma_kv_map_contains(self.entries@, k);
            let i = choose|i: int| 0 <= i < self.entries@.len() && self.entries@[i].0@ == k;
            lemma_kv_map_at(self.entries@, i);
        }
    }

    /// The empty snapshot.
    pub fn new() -> (r: PluginRegistry)
        ensures
            r.wf(),
            r@ == Map::<Seq<char>, PluginView>::empty(),
    {
        PluginRegistry { entries: Vec::new() }
    }

    /// Binds one binding word to the plugin, replacing any earlier plugin
    /// bound to that word.
    fn insert_binding(&mut self, binding: String, plugin: LuaPlugin)
        requires
            old(self).wf(),
            plugin@.wf(),
            plugin@.bindings.contains(binding@),
        ensures
            final(self).wf(),
            final(self)@ == old(self)@.insert(binding@, plugin@),
    {
        let n = self.entries.len();
        let mut i: usize = 0;
        while i < n
            invariant
                0 <= i <= n,
                n == self.entries@.len(),
                self.entries@ == old(self).entries@,
                old(self).wf(),
                plugin@.wf(),
                plugin@.bindings.contains(binding@),
                forall|j: int| 0 <= j < i ==> self.entries@[j].0@ != binding@,
            decreases n - i,
        {
            if str_eq(self.entries[i].0.as_str(), binding.as_str()) {
                proof {
                    lemma_kv_map_remove(self.entries@, i as int);
                }
                let ghost before = self.entries@;
                self.entries.remove(i);
                proof {
                    assert forall|j: int| 0 <= j < self.entries@.len() implies (
                    #[trigger] self.entries@[j]).1@.wf() && self.entries@[j].1@.bindings.contains(
                        self.entries@[j].0@,
                    ) && self.entries@[j].0@ != binding@ by {
                        let oj = if j < i { j } else { j + 1 };
                        assert(self.entries@[j] == before[oj]);
                        assert(before[i as int].0@ == binding@);
                    }
                    lemma_kv_map_push(self.entries@, (binding, plugin));
                    assert(old(self)@.remove(binding@).insert(binding@, plugin@) =~= old(
                        self,
                    )@.insert(binding@, plugin@));
                }
                let ghost mid = self.entries@;
                let ghost pushed_k = binding@;
                let ghost pushed_p = plugin@;
                self.entries.push((binding, plugin));
                proof {
                    assert(forall|p: int| 0 <= p < mid.len() ==> self.entries@[p] == mid[p]);
                    assert forall|j: int| 0 <= j < self.entries@.len() implies (
                    #[trigger] self.entries@[j]).1@.wf() && self.entries@[j].1@.bindings.contains(
                        self.entries@[j].0@,
                    ) by {
                        if j < self.entries@.len() - 1 {
                            assert(self.entries@[j] == mid[j]);
                            assert(mid[j].1@.wf());
                            assert(mid[j].1@.bindings.contains(mid[j].0@));
                        } else {
                            assert(self.entries@[j].0@ == pushed_k);
                            assert(self.entries@[j].1@ == pushed_p);
                        }
                    }
                    assert(distinct_keys(self.entries@));
                }
                return ;
            }
            i = i + 1;
        }
        proof {
            lemma_kv_map_push(self.entries@, (binding, plugin));
        }
        let ghost mid = self.entries@;
        let ghost pushed_k = binding@;
        let ghost pushed_p = plugin@;
        self.entries.push((binding, plugin));
        proof {
            assert(forall|p: int| 0 <= p < mid.len() ==> self.entries@[p] == mid[p]);
            assert forall|j: int| 0 <= j < self.entries@.len() implies (
            #[trigger] self.entries@[j]).1@.wf() && self.entries@[j].1@.bindings.contains(
                self.entries@[j].0@,
            ) by {
                if j < self.entries@.len() - 1 {
                    assert(self.entries@[j] == mid[j]);
                } else {
                    assert(self.entries@[j].0@ == pushed_k);
                    assert(self.entries@[j].1@ == pushed_p);
                }
            }
            assert(distinct_keys(self.entries@));
        }
    }

    /// Inserts the plugin under every one of its binding words; an earlier
    /// plugin sharing a word is overridden (last write wins in scan order).
    pub fn insert_plugin(&mut self, plugin: LuaPlugin)
        requires
            old(self).wf(),
            plugin@.wf(),
        ensures
            final(self).wf(),
            final(self)@ == old(self)@.union_prefer_right(plugin_bindings_map(plugin@)),
    {
        let ghost pv = plugin@;
        let n = plugin.bindings.len();
        proof {
            assert(self@ =~= old(self)@.union_prefer_right(partial_bindings_map(pv, 0)));
        }
        let mut i: usize = 0;
        while i < n
            invariant
                0 <= i <= n,
                n == plugin.bindings@.len(),
                pv == plugin@,
                pv.wf(),
                self.wf(),
                self@ == old(self)@.union_prefer_right(partial_bindings_map(pv, i as int)),
            decreases n - i,
        {
            let b = plugin.bindings[i].clone();
            proof {
                assert(pv.bindings[i as int] == b@);
            }
            let ghost prev = self@;
            self.insert_binding(b, plugin.duplicate());
            proof {
                let lo = partial_bindings_map(pv, i as int);
                let hi = partial_bindings_map(pv, i as int + 1);
                assert(self@ == prev.insert(b@, pv));
                assert(prev == old(self)@.union_prefer_right(lo));
                assert forall|k: Seq<char>|
                    pv.bindings.take(i as int + 1).contains(k) == (pv.bindings.take(
                        i as int,
                    ).contains(k) || k == b@) by {
                    if pv.bindings.take(i as int + 1).contains(k) {
                        let j = choose|j: int|
                            0 <= j < i + 1 && #[trigger] pv.bindings.take(i as int + 1)[j] == k;
                        if j < i {
                            assert(pv.bindings.take(i as int)[j] == k);
                        }
                    }
                    if pv.bindings.take(i as int).contains(k) {
                        let j = choose|j: int|
                            0 <= j < i && #[trigger] pv.bindings.take(i as int)[j] == k;
                        assert(pv.bindings.take(i as int + 1)[j] == k);
                    }
                    if k == b@ {
                        assert(pv.bindings.take(i as int + 1)[i as int] == k);
                    }
                }
                assert forall|k: Seq<char>|
                    self@.contains_key(k) == old(self)@.union_prefer_right(hi).contains_key(
                        k,
                    ) by {
                    assert(lo.contains_key(k) == pv.bindings.take(i as int).contains(k));
                    assert(hi.contains_key(k) == pv.bindings.take(i as int + 1).contains(k));
                }
                assert forall|k: Seq<char>| #[trigger]
                    self@.contains_key(k) implies self@[k] == old(self)@.union_prefer_right(
                    hi,
                )[k] by {
                    assert(lo.contains_key(k) == pv.bindings.take(i as int).contains(k));
                    assert(hi.contains_key(k) == pv.bindings.take(i as int + 1).contains(k));
                    if k == b@ {
                        assert(hi.contains_key(k));
                        assert(self@[k] == pv);
                    } else {
                        assert(self@[k] == prev[k]);
                        assert(lo.contains_key(k) == hi.contains_key(k));
                    }
                }
                assert(self@ =~= old(self)@.union_prefer_right(hi));
            }
            i = i + 1;
        }
        proof {
            assert(pv.bindings.take(n as int) =~= pv.bindings);
            assert(self@ =~= old(self)@.union_prefer_right(plugin_bindings_map(pv)));
        }
    }

    /// Looks a binding token up in the snapshot.
    pub fn lookup(&self, token: &str) -> (r: Option<&LuaPlugin>)
        requires
            self.wf(),
        ensures
            match r {
                Some(p) => self@.contains_key(token@) && p@ == self@[token@],
                None => !self@.contains_key(token@),
            },
    {
        let n = self.entries.len();
        let mut i: usize = 0;
        while i < n
            invariant
                0 <= i <= n,
                n == self.entries@.len(),
                self.wf(),
                forall|j: int| 0 <= j < i ==> self.entries@[j].0@ != token@,
            decreases n - i,
        {
            if str_eq(self.entries[i].0.as_str(), token) {
                proof {
                    lemma_kv_map_at(self.entries@, i as int);
                }
                return Some(&self.entries[i].1);
            }
            i = i + 1;
        }
        proof {
            lemma_kv_map_contains(self.entries@, token@);
        }
        None
    }

    /// Builds the snapshot that scanning `plugins` in order denotes: a new
    /// map, independent of any published one.
    pub fn rebuild(plugins: &Vec<LuaPlugin>) -> (r: PluginRegistry)
        requires
            forall|i: int| 0 <= i < plugins@.len() ==> (#[trigger] plugins@[i])@.wf(),
        ensures
            r.wf(),
            r@ == snapshot_map(plugins.deep_view()),
    {
        let ghost vs = plugins.deep_view();
        proof {
            assert(vs.len() == plugins@.len());
            assert(forall|i: int| 0 <= i < vs.len() ==> vs[i] == (#[trigger] plugins@[i])@);
        }
        let mut reg = PluginRegistry::new();
        proof {
            assert(reg@ =~= snapshot_map(vs.take(0)));
        }
        let n = plugins.len();
        let mut i: usize = 0;
        while i < n
            invariant
                0 <= i <= n,
                n == plugins@.len(),
                vs == plugins.deep_view(),
                vs.len() == n,
                forall|j: int| 0 <= j < vs.len() ==> vs[j] == (#[trigger] plugins@[j])@,
                forall|j: int| 0 <= j < plugins@.len() ==> (#[trigger] plugins@[j])@.wf(),
                reg.wf(),
                reg@ == snapshot_map(vs.take(i as int)),
            decreases n - i,
        {
            let p = plugins[i].duplicate();
            reg.insert_plugin(p);
            proof {
                assert(vs.take(i as int + 1).drop_last() =~= vs.take(i as int));
                assert(vs.take(i as int + 1).last() == vs[i as int]);
            }
            i = i + 1;
        }
        proof {
            assert(vs.take(n as int) =~= vs);
        }
        reg
    }

    /// Loads one plugin script and inserts it under all its bindings: the
    /// origin tag is derived from the file's path and the given user plugin
    /// root, and the script is read in a fresh sandbox. Whatever the
    /// interpreter returned, either the load failed and the snapshot is
    /// exactly as it was, or one well-formed descriptor carrying this
    /// file's text and origin was inserted under its own bindings and
    /// nothing else changed.
    pub fn register_plugin(&mut self, path: &str, source: &str, user_root: Option<&str>)
        requires
            old(self).wf(),
        ensures
            final(self).wf(),
            final(self)@ == old(self)@ || exists|p: PluginView|
                p.wf() && p.source == source@ && p.origin == origin_spec(
                    path@,
                    opt_root_view(user_root),
                ) && final(self)@ == old(self)@.union_prefer_right(plugin_bindings_map(p)),
    {
        let origin = origin_from_path(path, user_root);
        match load_plugin(source, origin.as_str()) {
            Some(p) => {
                let ghost pv = p@;
                self.insert_plugin(p);
                proof {
                    assert(pv.wf() && pv.source == source@ && pv.origin == origin_spec(
                        path@,
                        opt_root_view(user_root),
                    ) && self@ == old(self)@.union_prefer_right(plugin_bindings_map(pv)));
                }
            },
            None => (),
        }
    }

    /// Rebuilds a snapshot from the script files a directory scan found, in
    /// scan order: each file with the recognized extension is loaded in its
    /// own sandbox and, when valid, inserted under all its bindings; a bad
    /// file contributes nothing and never aborts its siblings, and a file
    /// without the extension contributes nothing. Every binding present
    /// traces to one scanned script file, carrying its text and its
    /// path-derived origin.
    pub fn rebuild_from_files(files: &Vec<PluginFile>, user_root: Option<&str>) -> (r:
        PluginRegistry)
        ensures
            r.wf(),
            forall|k: Seq<char>|
                #![trigger r@.contains_key(k)]
                r@.contains_key(k) ==> exists|t: int|
                    0 <= t < files@.len() && traces_to(
                        files@[t],
                        r@[k],
                        opt_root_view(user_root),
                    ),
    {
        let ghost uroot = opt_root_view(user_root);
        let mut reg = PluginRegistry::new();
        let n = files.len();
        let mut i: usize = 0;
        while i < n
            invariant
                0 <= i <= n,
                n == files@.len(),
                reg.wf(),
                uroot == opt_root_view(user_root),
                forall|k: Seq<char>|
                    #![trigger reg@.contains_key(k)]
                    reg@.contains_key(k) ==> exists|t: int|
                        0 <= t < i && traces_to(files@[t], reg@[k], uroot),
            decreases n - i,
        {
            let file = &files[i];
            if has_lua_extension(file.path.as_str()) {
                let ghost prev = reg@;
                reg.register_plugin(file.path.as_str(), file.source.as_str(), user_root);
                proof {
                    if reg@ != prev {
                        let p = choose|p: PluginView|
                            p.wf() && p.source == files@[i as int].source@ && p.origin
                                == origin_spec(files@[i as int].path@, uroot) && reg@
                                == prev.union_prefer_right(plugin_bindings_map(p));
                        assert forall|k: Seq<char>| #[trigger]
                            reg@.contains_key(k) implies exists|t: int|
                            0 <= t < i + 1 && traces_to(files@[t], reg@[k], uroot) by {
                            if plugin_bindings_map(p).dom().contains(k) {
                                assert(reg@[k] == p);
                                assert(traces_to(files@[i as int], reg@[k], uroot));
                            } else {
                                assert(prev.contains_key(k));
                                assert(reg@[k] == prev[k]);
                                let t = choose|t: int|
                                    0 <= t < i && traces_to(files@[t], prev[k], uroot);
                                assert(traces_to(files@[t], reg@[k], uroot));
                            }
                        }
                    } else {
                        assert forall|k: Seq<char>| #[trigger]
                            reg@.contains_key(k) implies exists|t: int|
                            0 <= t < i + 1 && traces_to(files@[t], reg@[k], uroot) by {
                            let t = choose|t: int| 0 <= t < i && traces_to(files@[t], reg@[k], uroot);
                            assert(traces_to(files@[t], reg@[k], uroot));
                        }
                    }
                }
            } else {
                proof {
                    assert forall|k: Seq<char>| #[trigger]
                        reg@.contains_key(k) implies exists|t: int|
                        0 <= t < i + 1 && traces_to(files@[t], reg@[k], uroot) by {
                        let t = choose|t: int| 0 <= t < i && traces_to(files@[t], reg@[k], uroot);
                        assert(traces_to(files@[t], reg@[k], uroot));
                    }
                }
            }
            i = i + 1;
        }
        reg
    }

    /// The loaded plugins with one representative per primary binding: a
    /// multi-alias plugin appears exactly once however many bindings point
    /// at it. Ordering for display is the caller's business.
    #[verifier::rlimit(50)]
    pub fn unique_plugins(&self) -> (r: Vec<&LuaPlugin>)
        requires
            self.wf(),
        ensures
            dedup_represents(self@, r.deep_view()),
    {
        let n = self.entries.len();
        let mut r: Vec<&LuaPlugin> = Vec::new();
        let mut i: usize = 0;
        while i < n
            invariant
                0 <= i <= n,
                n == self.entries@.len(),
                self.wf(),
                forall|a: int, b: int|
                    0 <= a < b < r@.len() ==> (#[trigger] r@[a])@.primary() != (#[trigger] r@[b])@.primary(),
                forall|a: int|
                    0 <= a < r@.len() ==> (#[trigger] r@[a])@.wf() && exists|k: Seq<char>|
                        self@.contains_key(k) && self@[k] == r@[a]@,
                forall|e: int|
                    0 <= e < i ==> exists|a: int|
                        0 <= a < r@.len() && (#[trigger] r@[a])@.primary() == (
                        #[trigger] self.entries@[e]).1@.primary(),
            decreases n - i,
        {
            let p = &self.entries[i].1;
            let m = r.len();
            let mut seen = false;
            let mut u: usize = 0;
            while u < m
                invariant
                    0 <= u <= m,
                    m == r@.len(),
                    self.wf(),
                    0 <= i < n,
                    n == self.entries@.len(),
                    p == &self.entries@[i as int].1,
                    p@.wf(),
                    forall|a: int| 0 <= a < r@.len() ==> (#[trigger] r@[a])@.wf(),
                    seen ==> exists|a: int|
                        0 <= a < r@.len() && (#[trigger] r@[a])@.primary() == p@.primary(),
                    !seen ==> forall|a: int|
                        0 <= a < u ==> (#[trigger] r@[a])@.primary() != p@.primary(),
                decreases m - u,
            {
                if str_eq(r[u].bindings[0].as_str(), p.bindings[0].as_str()) {
                    seen = true;
                    proof {
                        assert(r@[u as int]@.primary() == p@.primary());
                    }
                    u = m;
                } else {
                    u = u + 1;
                }
            }
            if !seen {
                let ghost r_old = r@;
                r.push(p);
                proof {
                    assert(forall|a: int| 0 <= a < r_old.len() ==> r@[a] == r_old[a]);
                    lemma_kv_map_at(self.entries@, i as int);
                    assert(self@.contains_key(self.entries@[i as int].0@));
                    assert(self@[self.entries@[i as int].0@] == p@);
                    assert(r@[r@.len() - 1]@.primary() == p@.primary());
                    assert forall|a: int, b: int| 0 <= a < b < r@.len() implies (
                    #[trigger] r@[a])@.primary() != (#[trigger] r@[b])@.primary() by {
                        if b < r@.len() - 1 {
                            assert(r_old[a]@.primary() != r_old[b]@.primary());
                        } else {
                            assert(r_old[a]@.primary() != p@.primary());
                        }
                    }
                    assert forall|e: int| 0 <= e < i + 1 implies exists|a: int|
                        0 <= a < r@.len() && (#[trigger] r@[a])@.primary() == (
                        #[trigger] self.entries@[e]).1@.primary() by {
                        if e < i {
                            let a = choose|a: int|
                                0 <= a < r_old.len() && (#[trigger] r_old[a])@.primary()
                                    == self.entries@[e].1@.primary();
                            assert(r@[a]@.primary() == self.entries@[e].1@.primary());
                        } else {
                            assert(r@[r@.len() - 1]@.primary() == self.entries@[e].1@.primary());
                        }
                    }
                }
            } else {
                proof {
                    assert forall|e: int| 0 <= e < i + 1 implies exists|a: int|
                        0 <= a < r@.len() && (#[trigger] r@[a])@.primary() == (
                        #[trigger] self.entries@[e]).1@.primary() by {
                        if e == i {
                            let a = choose|a: int|
                                0 <= a < r@.len() && (#[trigger] r@[a])@.primary() == p@.primary();
                            assert(r@[a]@.primary() == self.entries@[e].1@.primary());
                        }
                    }
                }
            }
            i = i + 1;
        }
        proof {
            assert forall|k: Seq<char>| self@.contains_key(k) implies exists|a: int|
                0 <= a < r@.len() && (#[trigger] r@[a])@.primary() == self@[k].primary() by {
                lemma_kv_map_contains(self.entries@, k);
                let e = choose|e: int| 0 <= e < self.entries@.len() && self.entries@[e].0@ == k;
                lemma_kv_map_at(self.entries@, e);
            }
            let ps = r.deep_view();
            assert(forall|a: int| 0 <= a < ps.len() ==> #[trigger] ps[a] == r@[a]@);
            reveal(dedup_represents);
            assert forall|a: int| 0 <= a < ps.len() implies held_in(self@, #[trigger] ps[a]) by {
                assert(ps[a] == r@[a]@);
                assert(exists|k: Seq<char>| self@.contains_key(k) && self@[k] == r@[a]@);
                let k = choose|k: Seq<char>| #[trigger]
                    self@.contains_key(k) && self@[k] == r@[a]@;
                assert(held_in(self@, ps[a])) by {
                    reveal(held_in);
                    assert(self@.contains_key(k) && self@[k] == ps[a]);
                }
            }
            assert forall|k: Seq<char>| #[trigger]
                self@.contains_key(k) implies exists|a: int|
                0 <= a < ps.len() && ps[a].primary() == self@[k].primary() by {
                let a = choose|a: int|
                    0 <= a < r@.len() && (#[trigger] r@[a])@.primary() == self@[k].primary();
                assert(0 <= a < ps.len() && ps[a].primary() == self@[k].primary());
            }
            assert(dedup_represents(self@, ps));
        }
        r
    }
}

/// Hot-reload convergence, additions: after a scan whose plugin list ends
/// with `p`, every binding of `p` looks up to `p` — the snapshot reflects an
/// added or changed file.
pub proof fn lemma_rebuild_latest_wins(plugins: Seq<PluginView>, b: Seq<char>)
    requires
        plugins.len() >= 1,
        plugins.last().bindings.contains(b),
    ensures
        snapshot_map(plugins).contains_key(b),
        snapshot_map(plugins)[b] == plugins.last(),
{
}

/// Hot-reload convergence, removals: a binding that no scanned plugin
/// declares is absent from the snapshot — it reflects a removed file.
pub proof fn lemma_rebuild_absent(plugins: Seq<PluginView>, b: Seq<char>)
    requires
        forall|i: int| 0 <= i < plugins.len() ==> !(#[trigger] plugins[i]).bindings.contains(b),
    ensures
        !snapshot_map(plugins).contains_key(b),
    decreases plugins.len(),
{
    if plugins.len() > 0 {
        lemma_rebuild_absent(plugins.drop_last(), b);
    }
}

/// Binding conflicts resolve to scan order: a binding looks up to the last
/// plugin in scan order that declares it.
pub proof fn lemma_rebuild_lookup(plugins: Seq<PluginView>, i: int, b: Seq<char>)
    requires
        0 <= i < plugins.len(),
        plugins[i].bindings.contains(b),
        forall|j: int| i < j < plugins.len() ==> !(#[trigger] plugins[j]).bindings.contains(b),
    ensures
        snapshot_map(plugins).contains_key(b),
        snapshot_map(plugins)[b] == plugins[i],
    decreases plugins.len(),
{
    if i == plugins.len() - 1 {
    } else {
        lemma_rebuild_lookup(plugins.drop_last(), i, b);
    }
}

} // verus!
