//! The hot-reload decision: which filesystem notifications warrant a full
//! registry rebuild. Subscribing to the OS watch mechanism and running the
//! background loop is the surrounding application's business; it hands each
//! event's category and paths here and rebuilds when told to.

use vstd::prelude::*;

use crate::plugin::has_lua_ext;
use crate::plugin::has_lua_extension;

verus! {

/// The category of a filesystem notification, as the watch mechanism
/// reports it.
#[derive(PartialEq, Eq, Structural, Clone, Copy, Debug)]
pub enum WatchEventKind {
    Create,
    Modify,
    Remove,
    Other,
}

/// Whether the event category can change the plugin set.
pub open spec fn relevant_kind(kind: WatchEventKind) -> bool {
    kind is Create || kind is Modify || kind is Remove
}

/// Whether a notification warrants a full rebuild: its category is a
/// create, modify or remove, and some affected path has the recognized
/// plugin script extension.
pub fn event_triggers_rebuild(kind: &WatchEventKind, paths: &Vec<String>) -> (r: bool)
    ensures
        r == (relevant_kind(*kind) && exists|i: int|
            0 <= i < paths@.len() && has_lua_ext(#[trigger] paths@[i]@)),
{
    let relevant = match kind {
        WatchEventKind::Create => true,
        WatchEventKind::Modify => true,
        WatchEventKind::Remove => true,
        WatchEventKind::Other => false,
    };
    if !relevant {
        return false;
    }
    let n = paths.len();
    let mut i: usize = 0;
    while i < n
        invariant
            0 <= i <= n,
            n == paths@.len(),
            relevant_kind(*kind),
            forall|j: int| 0 <= j < i ==> !has_lua_ext(#[trigger] paths@[j]@),
        decreases n - i,
    {
        if has_lua_extension(paths[i].as_str()) {
            proof {
                assert(has_lua_ext(paths@[i as int]@));
            }
            return true;
        }
        i = i + 1;
    }
    false
}

} // verus!
