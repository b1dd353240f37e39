//! Plugin descriptors: the immutable value a loaded script file denotes,
//! its validation, and the path-derived origin tag.

use vstd::prelude::*;
use vstd::string::StrSliceExecFns;

use crate::sandbox::read_plugin_meta;
use crate::sandbox::PluginMeta;
use crate::text::str_eq;

verus! {

/// Read-only projection of a descriptor for listing: never used for
/// dispatch.
pub struct CommandInfo {
    pub bindings: Vec<String>,
    pub description: String,
    pub example: String,
    pub origin: String,
}

/// The mathematical content of a `CommandInfo`.
#[verifier::ext_equal]
pub struct CommandInfoView {
    pub bindings: Seq<Seq<char>>,
    pub description: Seq<char>,
    pub example: Seq<char>,
    pub origin: Seq<char>,
}

impl View for CommandInfo {
    type V = CommandInfoView;

    open spec fn view(&self) -> CommandInfoView {
        (CommandInfoView {
            bindings: self.bindings.deep_view(),
            description: self.description@,
            example: self.example@,
            origin: self.origin@,
        })
    }
}

impl DeepView for CommandInfo {
    type V = CommandInfoView;

    open spec fn deep_view(&self) -> CommandInfoView {
        self.view()
    }
}

/// Information about a registered command binding, without the origin tag.
pub struct BunnylolCommandInfo {
    pub bindings: Vec<String>,
    pub description: String,
    pub example: String,
}

/// The mathematical content of a `BunnylolCommandInfo`.
#[verifier::ext_equal]
pub struct BunnylolInfoView {
    pub bindings: Seq<Seq<char>>,
    pub description: Seq<char>,
    pub example: Seq<char>,
}

impl View for BunnylolCommandInfo {
    type V = BunnylolInfoView;

    open spec fn view(&self) -> BunnylolInfoView {
        (BunnylolInfoView {
            bindings: self.bindings.deep_view(),
            description: self.description@,
            example: self.example@,
        })
    }
}

impl DeepView for BunnylolCommandInfo {
    type V = BunnylolInfoView;

    open spec fn deep_view(&self) -> BunnylolInfoView {
        self.view()
    }
}

impl CommandInfoView {
    /// The same listing entry without its origin tag.
    pub open spec fn sans_origin(self) -> BunnylolInfoView {
        (BunnylolInfoView {
            bindings: self.bindings,
            description: self.description,
            example: self.example,
        })
    }
}

impl BunnylolCommandInfo {
    pub fn new(bindings: &[&str], description: &str, example: &str) -> (r: Self)
        ensures
            r.bindings.deep_view() =~= bindings.deep_view(),
            r.description@ == description@,
            r.example@ == example@,
    {
        let n = bindings.len();
        let mut owned: Vec<String> = Vec::new();
        let mut i: usize = 0;
        while i < n
            invariant
                0 <= i <= n,
                n == bindings@.len(),
                owned@.len() == i,
                forall|j: int| 0 <= j < i ==> owned@[j]@ == bindings@[j]@,
            decreases n - i,
        {
            owned.push(bindings[i].to_owned());
            i = i + 1;
        }
        proof {
            assert(owned.deep_view() =~= bindings.deep_view());
        }
        BunnylolCommandInfo {
            bindings: owned,
            description: description.to_owned(),
            example: example.to_owned(),
        }
    }
}

/// A loaded plugin: its binding words (the first is primary), descriptive
/// strings, origin tag, and the script body itself, never parsed outside
/// the sandbox.
pub struct LuaPlugin {
    pub bindings: Vec<String>,
    pub description: String,
    pub example: String,
    pub source: String,
    pub origin: String,
}

/// The mathematical content of a plugin descriptor.
#[verifier::ext_equal]
pub struct PluginView {
    pub bindings: Seq<Seq<char>>,
    pub description: Seq<char>,
    pub example: Seq<char>,
    pub source: Seq<char>,
    pub origin: Seq<char>,
}

impl View for LuaPlugin {
    type V = PluginView;

    open spec fn view(&self) -> PluginView {
        (PluginView {
            bindings: self.bindings.deep_view(),
            description: self.description@,
            example: self.example@,
            source: self.source@,
            origin: self.origin@,
        })
    }
}

impl DeepView for LuaPlugin {
    type V = PluginView;

    open spec fn deep_view(&self) -> PluginView {
        self.view()
    }
}

/// A usable binding list: at least one word, none repeated.
pub open spec fn bindings_ok(bindings: Seq<Seq<char>>) -> bool {
    bindings.len() >= 1 && (forall|i: int, j: int|
        0 <= i < j < bindings.len() ==> bindings[i] != bindings[j])
}

impl PluginView {
    /// A well-formed descriptor: a usable binding list.
    pub open spec fn wf(self) -> bool {
        bindings_ok(self.bindings)
    }

    /// The primary binding: the first in declaration order.
    pub open spec fn primary(self) -> Seq<char>
        recommends
            self.wf(),
    {
        self.bindings[0]
    }

    /// The listing projection of this descriptor.
    pub open spec fn info_view(self) -> CommandInfoView {
        (CommandInfoView {
            bindings: self.bindings,
            description: self.description,
            example: self.example,
            origin: self.origin,
        })
    }
}

pub(crate) fn clone_string_vec(v: &Vec<String>) -> (r: Vec<String>)
    ensures
        r.deep_view() == v.deep_view(),
{
    let n = v.len();
    let mut r: Vec<String> = Vec::new();
    let mut i: usize = 0;
    while i < n
        invariant
            0 <= i <= n,
            n == v@.len(),
            r@.len() == i,
            forall|j: int| 0 <= j < i ==> r@[j]@ == v@[j]@,
        decreases n - i,
    {
        r.push(v[i].clone());
        i = i + 1;
    }
    proof {
        assert(r.deep_view() =~= v.deep_view());
    }
    r
}

impl LuaPlugin {
    /// A fresh descriptor with the same content.
    pub fn duplicate(&self) -> (r: LuaPlugin)
        ensures
            r@ == self@,
    {
        let r = LuaPlugin {
            bindings: clone_string_vec(&self.bindings),
            description: self.description.clone(),
            example: self.example.clone(),
            source: self.source.clone(),
            origin: self.origin.clone(),
        };
        proof {
            assert(r@ =~= self@);
        }
        r
    }

    /// The listing projection of this descriptor.
    pub fn info(&self) -> (r: CommandInfo)
        ensures
            r@ == self@.info_view(),
    {
        let r = CommandInfo {
            bindings: clone_string_vec(&self.bindings),
            description: self.description.clone(),
            example: self.example.clone(),
            origin: self.origin.clone(),
        };
        proof {
            assert(r@ =~= self@.info_view());
        }
        r
    }
}

/// The descriptor that validated metadata denotes.
pub open spec fn descriptor_of(
    bindings: Seq<Seq<char>>,
    description: Seq<char>,
    example: Seq<char>,
    source: Seq<char>,
    origin: Seq<char>,
) -> PluginView {
    (PluginView {
        bindings: bindings,
        description: description,
        example: example,
        source: source,
        origin: origin,
    })
}

/// Metadata passes validation: the script defines `process`, and its
/// binding list is usable.
pub open spec fn meta_ok(bindings: Seq<Seq<char>>, has_process: bool) -> bool {
    has_process && bindings_ok(bindings)
}

/// Validates raw metadata and builds the descriptor: `Some` exactly when
/// the script defined `process`, declared at least one binding, and
/// repeated none.
pub fn validate_meta(meta: PluginMeta, source: &str, origin: &str) -> (r: Option<LuaPlugin>)
    ensures
        match r {
            Some(p) => meta_ok(meta.bindings.deep_view(), meta.has_process) && p@ == descriptor_of(
                meta.bindings.deep_view(),
                meta.description@,
                meta.example@,
                source@,
                origin@,
            ),
            None => !meta_ok(meta.bindings.deep_view(), meta.has_process),
        },
{
    let ghost bv = meta.bindings.deep_view();
    proof {
        assert(bv.len() == meta.bindings@.len());
        assert(forall|i: int| 0 <= i < bv.len() ==> bv[i] == meta.bindings@[i]@);
    }
    if !meta.has_process {
        return None;
    }
    let n = meta.bindings.len();
    if n == 0 {
        return None;
    }
    let mut i: usize = 0;
    while i < n
        invariant
            0 <= i <= n,
            n == meta.bindings@.len(),
            bv == meta.bindings.deep_view(),
            bv.len() == n,
            forall|j: int| 0 <= j < bv.len() ==> bv[j] == meta.bindings@[j]@,
            forall|p: int, q: int| 0 <= p < i && p < q < n ==> bv[p] != bv[q],
        decreases n - i,
    {
        let mut j: usize = i + 1;
        while j < n
            invariant
                0 <= i < j <= n,
                n == meta.bindings@.len(),
                bv == meta.bindings.deep_view(),
                bv.len() == n,
                forall|k: int| 0 <= k < bv.len() ==> bv[k] == meta.bindings@[k]@,
                forall|q: int| i < q < j ==> bv[i as int] != bv[q],
            decreases n - j,
        {
            if str_eq(meta.bindings[i].as_str(), meta.bindings[j].as_str()) {
                assert(bv[i as int] == bv[j as int]);
                return None;
            }
            j = j + 1;
        }
        i = i + 1;
    }
    let r = LuaPlugin {
        bindings: meta.bindings,
        description: meta.description,
        example: meta.example,
        source: source.to_owned(),
        origin: origin.to_owned(),
    };
    proof {
        assert(r@ =~= descriptor_of(bv, meta.description@, meta.example@, source@, origin@));
    }
    Some(r)
}

/// Loads one plugin from its script text: reads its metadata in a fresh
/// sandbox and validates it. `None` — the file is skipped and its siblings
/// unaffected — when the script fails to run, `info` is missing or
/// malformed, the binding list is empty or repeats a word, or `process` is
/// missing; otherwise the descriptor, carrying the script text and origin
/// unchanged.
pub fn load_plugin(source: &str, origin: &str) -> (r: Option<LuaPlugin>)
    ensures
        match r {
            Some(p) => p@.wf() && p@.source == source@ && p@.origin == origin@,
            None => true,
        },
{
    match read_plugin_meta(source) {
        Some(meta) => validate_meta(meta, source, origin),
        None => None,
    }
}

/// Loading is idempotent in its verified part: the descriptor is a function
/// of the metadata read, the source text, and the origin alone, so two
/// loads that read equal metadata from the same file yield equal
/// descriptors, and hence equal listing projections.
pub proof fn lemma_load_idempotent(
    p1: PluginView,
    p2: PluginView,
    bindings: Seq<Seq<char>>,
    description: Seq<char>,
    example: Seq<char>,
    source: Seq<char>,
    origin: Seq<char>,
)
    requires
        p1 == descriptor_of(bindings, description, example, source, origin),
        p2 == descriptor_of(bindings, description, example, source, origin),
    ensures
        p1 == p2,
        p1.info_view() == p2.info_view(),
{
}

/// The position of the last `c` in `s`, or -1.
pub open spec fn last_index_of(s: Seq<char>, c: char) -> int
    decreases s.len(),
{
    if s.len() == 0 {
        -1
    } else if s.last() == c {
        s.len() - 1
    } else {
        last_index_of(s.drop_last(), c)
    }
}

pub proof fn lemma_last_index_of_at(s: Seq<char>, c: char, j: int)
    requires
        0 <= j < s.len(),
        s[j] == c,
        forall|k: int| j < k < s.len() ==> s[k] != c,
    ensures
        last_index_of(s, c) == j,
    decreases s.len(),
{
    if j == s.len() - 1 {
    } else {
        assert(s.last() != c);
        assert forall|k: int| j < k < s.drop_last().len() implies s.drop_last()[k] != c by {
            assert(s[k] != c);
        }
        lemma_last_index_of_at(s.drop_last(), c, j);
    }
}

pub proof fn lemma_last_index_of_none(s: Seq<char>, c: char)
    requires
        forall|k: int| 0 <= k < s.len() ==> s[k] != c,
    ensures
        last_index_of(s, c) == -1,
    decreases s.len(),
{
    if s.len() > 0 {
        lemma_last_index_of_none(s.drop_last(), c);
    }
}

/// The name of the directory that directly contains `path`, or empty when
/// the path has no parent directory in it.
pub open spec fn parent_dir_name(path: Seq<char>) -> Seq<char> {
    let j = last_index_of(path, '/');
    if j < 0 {
        Seq::<char>::empty()
    } else {
        path.subrange(last_index_of(path.take(j), '/') + 1, j)
    }
}

/// The full path of the directory that directly contains `path`, or empty
/// when the path has no directory part.
pub open spec fn parent_dir_path(path: Seq<char>) -> Seq<char> {
    let j = last_index_of(path, '/');
    if j < 0 {
        Seq::<char>::empty()
    } else {
        path.take(j)
    }
}

/// The view of an optional user plugin root.
pub open spec fn opt_root_view(o: Option<&str>) -> Option<Seq<char>> {
    match o {
        Some(s) => Some(s@),
        None => None,
    }
}

/// The origin tag of a plugin file: `user` when its containing directory is
/// the canonical user plugin root the caller names, else the name of that
/// directory, used verbatim as a vendor or package identifier.
pub open spec fn origin_spec(path: Seq<char>, user_root: Option<Seq<char>>) -> Seq<char> {
    if user_root is Some && parent_dir_path(path) == user_root->0 {
        "user"@
    } else {
        parent_dir_name(path)
    }
}

/// Derives the origin tag from the plugin file's path; `user_root` is the
/// canonical user plugin directory, without a trailing separator.
pub fn origin_from_path(path: &str, user_root: Option<&str>) -> (r: String)
    ensures
        r@ == origin_spec(path@, opt_root_view(user_root)),
{
    let n = path.unicode_len();
    let mut j: usize = n;
    while j > 0 && path.get_char(j - 1) != '/'
        invariant
            0 <= j <= n,
            n == path@.len(),
            forall|k: int| j <= k < n ==> path@[k] != '/',
        decreases j,
    {
        j = j - 1;
    }
    proof {
        if j == 0 {
            lemma_last_index_of_none(path@, '/');
        } else {
            lemma_last_index_of_at(path@, '/', j - 1);
        }
    }
    let parent_end = if j == 0 {
        0
    } else {
        j - 1
    };
    let parent = path.substring_char(0, parent_end);
    proof {
        assert(parent@ =~= parent_dir_path(path@));
    }
    let is_user = match user_root {
        Some(root) => str_eq(parent, root),
        None => false,
    };
    if is_user {
        return ("user").to_owned();
    }
    if j == 0 {
        return String::new();
    }
    let mut i: usize = j - 1;
    while i > 0 && path.get_char(i - 1) != '/'
        invariant
            0 <= i <= j - 1,
            1 <= j <= n,
            n == path@.len(),
            forall|k: int| i <= k < j - 1 ==> path@[k] != '/',
        decreases i,
    {
        i = i - 1;
    }
    proof {
        let t = path@.take(j - 1);
        if i == 0 {
            assert forall|k: int| 0 <= k < t.len() implies t[k] != '/' by {
                assert(path@[k] != '/');
            }
            lemma_last_index_of_none(t, '/');
        } else {
            assert(t[i - 1] == path@[i - 1]);
            assert forall|k: int| i - 1 < k < t.len() implies t[k] != '/' by {
                assert(path@[k] != '/');
            }
            lemma_last_index_of_at(t, '/', i - 1);
        }
        assert(parent_dir_name(path@) == path@.subrange(i as int, j - 1));
    }
    path.substring_char(i, j - 1).to_owned()
}

/// `path` names a file with the recognized script extension: its file name
/// has a `.lua` suffix whose dot is neither the first character of the name
/// nor absent.
pub open spec fn has_lua_ext(path: Seq<char>) -> bool {
    let name = path.skip(last_index_of(path, '/') + 1);
    let d = last_index_of(name, '.');
    d > 0 && name.skip(d + 1) == "lua"@
}

/// Whether the file at `path` has the recognized plugin script extension.
pub fn has_lua_extension(path: &str) -> (r: bool)
    ensures
        r == has_lua_ext(path@),
{
    let n = path.unicode_len();
    let mut j: usize = n;
    while j > 0 && path.get_char(j - 1) != '/'
        invariant
            0 <= j <= n,
            n == path@.len(),
            forall|k: int| j <= k < n ==> path@[k] != '/',
        decreases j,
    {
        j = j - 1;
    }
    proof {
        if j == 0 {
            lemma_last_index_of_none(path@, '/');
        } else {
            lemma_last_index_of_at(path@, '/', j - 1);
        }
    }
    let name = path.substring_char(j, n);
    let ghost nv = name@;
    let m = n - j;
    let mut d: usize = m;
    while d > 0 && name.get_char(d - 1) != '.'
        invariant
            0 <= d <= m,
            m == nv.len(),
            nv == name@,
            forall|k: int| d <= k < m ==> nv[k] != '.',
        decreases d,
    {
        d = d - 1;
    }
    if d == 0 {
        proof {
            lemma_last_index_of_none(nv, '.');
        }
        return false;
    }
    proof {
        lemma_last_index_of_at(nv, '.', d - 1);
    }
    if d - 1 == 0 {
        return false;
    }
    let ext = name.substring_char(d, m);
    str_eq(ext, "lua")
}

} // verus!
