//! Extraction of the leading binding token from a raw query string.

use vstd::prelude::*;
use vstd::string::StrSliceExecFns;

verus! {

/// Number of characters before the first space of `s` (all of `s` if it has
/// no space).
pub open spec fn token_len(s: Seq<char>) -> nat
    decreases s.len(),
{
    if s.len() == 0 {
        0
    } else if s[0] == ' ' {
        0
    } else {
        (1 + token_len(s.drop_first())) as nat
    }
}

/// The leading space-delimited token of `s`: its prefix up to (excluding) the
/// first space, or all of `s` if it has none.
pub open spec fn leading_token(s: Seq<char>) -> Seq<char> {
    s.take(token_len(s) as int)
}

/// `token_len` is the only cut that is space-free on the left and bounded by
/// a space (or the end) on the right.
pub proof fn lemma_token_len_unique(s: Seq<char>, k: int)
    requires
        0 <= k <= s.len(),
        forall|j: int| 0 <= j < k ==> s[j] != ' ',
        k < s.len() ==> s[k] == ' ',
    ensures
        k == token_len(s),
    decreases s.len(),
{
    if k == 0 {
    } else {
        assert(s[0] != ' ');
        assert forall|j: int| 0 <= j < k - 1 implies s.drop_first()[j] != ' ' by {
            assert(s[j + 1] != ' ');
        }
        lemma_token_len_unique(s.drop_first(), k - 1);
    }
}

/// Returns the leading space-delimited token of `query_string`: the binding
/// candidate that the registry is queried for.
pub fn get_command_from_query_string(query_string: &str) -> (r: &str)
    ensures
        r@ == leading_token(query_string@),
{
    let n = query_string.unicode_len();
    let mut i: usize = 0;
    while i < n && query_string.get_char(i) != ' '
        invariant
            0 <= i <= n,
            n == query_string@.len(),
            forall|j: int| 0 <= j < i ==> query_string@[j] != ' ',
        decreases n - i,
    {
        i = i + 1;
    }
    proof {
        lemma_token_len_unique(query_string@, i as int);
    }
    query_string.substring_char(0, i)
}

} // verus!
