//! Computation of the plugin directories to scan. Probing the filesystem
//! and creating the user directory are the caller's business; these
//! functions only assemble and order the paths.

use vstd::prelude::*;
use vstd::string::StringExecFns;

verus! {

pub const APP_PREFIX: &'static str = "bunnylol";

/// A `Some` directory as a one-element path list, `None` as an empty one.
pub open spec fn opt_dir_seq(o: Option<String>) -> Seq<Seq<char>> {
    match o {
        Some(d) => seq![d@],
        None => Seq::<Seq<char>>::empty(),
    }
}

/// The Homebrew plugin directory under the given Homebrew prefix.
pub fn brew_plugin_dir(prefix: &str) -> (r: String)
    ensures
        r@ == prefix@ + "/share/bunnylol/commands"@,
{
    let mut s = prefix.to_owned();
    s.append("/share/bunnylol/commands");
    s
}

/// The ordered list of plugin directories to scan: the user directory
/// first, then the vendor (Homebrew) one. The caller passes only
/// directories that exist; a missing directory is silently absent. The
/// order decides which plugin wins a binding conflict: later-scanned
/// directories overwrite earlier ones.
pub fn plugin_dirs(user_dir: Option<String>, brew_dir: Option<String>) -> (r: Vec<String>)
    ensures
        r.deep_view() == opt_dir_seq(user_dir) + opt_dir_seq(brew_dir),
{
    let ghost u = opt_dir_seq(user_dir);
    let ghost b = opt_dir_seq(brew_dir);
    let mut v: Vec<String> = Vec::new();
    if let Some(d) = user_dir {
        v.push(d);
    }
    proof {
        assert(v.deep_view() =~= u);
    }
    if let Some(d) = brew_dir {
        v.push(d);
    }
    proof {
        assert(v.deep_view() =~= u + b);
    }
    v
}

} // verus!
