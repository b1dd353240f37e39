//! Verified text operations: the pure string helpers exposed to plugin
//! scripts and the primitives the dispatcher and configuration logic build
//! on.

use vstd::prelude::*;
use vstd::string::StrSliceExecFns;
use vstd::string::StringExecFns;

verus! {

/// Unicode white space: the characters that `str::trim` removes.
pub open spec fn is_space_char(c: char) -> bool {
    let n = c as u32;
    ||| n == 0x09
    ||| n == 0x0A
    ||| n == 0x0B
    ||| n == 0x0C
    ||| n == 0x0D
    ||| n == 0x20
    ||| n == 0x85
    ||| n == 0xA0
    ||| n == 0x1680
    ||| (0x2000 <= n && n <= 0x200A)
    ||| n == 0x2028
    ||| n == 0x2029
    ||| n == 0x202F
    ||| n == 0x205F
    ||| n == 0x3000
}

pub fn is_space(c: char) -> (r: bool)
    ensures
        r == is_space_char(c),
{
    let n = c as u32;
    n == 0x09 || n == 0x0A || n == 0x0B || n == 0x0C || n == 0x0D || n == 0x20 || n == 0x85
        || n == 0xA0 || n == 0x1680 || (0x2000 <= n && n <= 0x200A) || n == 0x2028 || n == 0x2029
        || n == 0x202F || n == 0x205F || n == 0x3000
}

/// `s` without its leading white space.
pub open spec fn trim_start_spec(s: Seq<char>) -> Seq<char>
    decreases s.len(),
{
    if s.len() == 0 {
        s
    } else if is_space_char(s[0]) {
        trim_start_spec(s.drop_first())
    } else {
        s
    }
}

/// `s` without its trailing white space.
pub open spec fn trim_end_spec(s: Seq<char>) -> Seq<char>
    decreases s.len(),
{
    if s.len() == 0 {
        s
    } else if is_space_char(s.last()) {
        trim_end_spec(s.drop_last())
    } else {
        s
    }
}

/// `s` without leading and trailing white space.
pub open spec fn trim_spec(s: Seq<char>) -> Seq<char> {
    trim_end_spec(trim_start_spec(s))
}

/// If the first `a` characters of `s` are white space and the character at
/// `a` (if any) is not, trimming the start keeps exactly `s[a..]`.
pub proof fn lemma_trim_start_subrange(s: Seq<char>, a: int)
    requires
        0 <= a <= s.len(),
        forall|j: int| 0 <= j < a ==> is_space_char(s[j]),
        a < s.len() ==> !is_space_char(s[a]),
    ensures
        trim_start_spec(s) == s.subrange(a, s.len() as int),
    decreases s.len(),
{
    if a == 0 {
        assert(s.subrange(0, s.len() as int) =~= s);
    } else {
        assert(is_space_char(s[0]));
        assert forall|j: int| 0 <= j < a - 1 implies is_space_char(s.drop_first()[j]) by {
            assert(is_space_char(s[j + 1]));
        }
        lemma_trim_start_subrange(s.drop_first(), a - 1);
        assert(s.drop_first().subrange(a - 1, s.drop_first().len() as int) =~= s.subrange(
            a,
            s.len() as int,
        ));
    }
}

/// If the characters of `s` from `b` on are white space and the character at
/// `b - 1` (if any) is not, trimming the end keeps exactly `s[..b]`.
pub proof fn lemma_trim_end_subrange(s: Seq<char>, b: int)
    requires
        0 <= b <= s.len(),
        forall|j: int| b <= j < s.len() ==> is_space_char(s[j]),
        b > 0 ==> !is_space_char(s[b - 1]),
    ensures
        trim_end_spec(s) == s.subrange(0, b),
    decreases s.len(),
{
    if b == s.len() {
        if s.len() == 0 {
            assert(s.subrange(0, 0) =~= s);
        } else {
            assert(s.subrange(0, s.len() as int) =~= s);
        }
    } else {
        assert(is_space_char(s.last()));
        lemma_trim_end_subrange(s.drop_last(), b);
        assert(s.drop_last().subrange(0, b) =~= s.subrange(0, b));
    }
}

/// Returns `s` without leading white space, as `str::trim_start` does.
pub fn trim_start_str(s: &str) -> (r: &str)
    ensures
        r@ == trim_start_spec(s@),
{
    let n = s.unicode_len();
    let mut a: usize = 0;
    while a < n && is_space(s.get_char(a))
        invariant
            0 <= a <= n,
            n == s@.len(),
            forall|j: int| 0 <= j < a ==> is_space_char(s@[j]),
        decreases n - a,
    {
        a = a + 1;
    }
    proof {
        lemma_trim_start_subrange(s@, a as int);
    }
    s.substring_char(a, n)
}

/// Returns `s` without leading and trailing white space, as `str::trim`
/// does.
pub fn trim_str(s: &str) -> (r: &str)
    ensures
        r@ == trim_spec(s@),
{
    let n = s.unicode_len();
    let mut a: usize = 0;
    while a < n && is_space(s.get_char(a))
        invariant
            0 <= a <= n,
            n == s@.len(),
            forall|j: int| 0 <= j < a ==> is_space_char(s@[j]),
        decreases n - a,
    {
        a = a + 1;
    }
    let mut b: usize = n;
    while b > a && is_space(s.get_char(b - 1))
        invariant
            a <= b <= n,
            n == s@.len(),
            forall|j: int| b <= j < n ==> is_space_char(s@[j]),
        decreases b,
    {
        b = b - 1;
    }
    proof {
        lemma_trim_start_subrange(s@, a as int);
        let t = s@.subrange(a as int, n as int);
        assert forall|j: int| (b - a) <= j < t.len() implies is_space_char(t[j]) by {
            assert(is_space_char(s@[a + j]));
        }
        lemma_trim_end_subrange(t, b - a);
        assert(t.subrange(0, b - a) =~= s@.subrange(a as int, b as int));
    }
    s.substring_char(a, b)
}

/// Character-wise string equality.
pub fn str_eq(a: &str, b: &str) -> (r: bool)
    ensures
        r == (a@ == b@),
{
    let na = a.unicode_len();
    let nb = b.unicode_len();
    if na != nb {
        return false;
    }
    let mut i: usize = 0;
    while i < na
        invariant
            0 <= i <= na,
            na == a@.len(),
            na == b@.len(),
            forall|j: int| 0 <= j < i ==> a@[j] == b@[j],
        decreases na - i,
    {
        if a.get_char(i) != b.get_char(i) {
            return false;
        }
        i = i + 1;
    }
    proof {
        assert(a@ =~= b@);
    }
    true
}

/// `p` is a prefix of `s`.
pub open spec fn has_prefix(s: Seq<char>, p: Seq<char>) -> bool {
    p.len() <= s.len() && s.take(p.len() as int) == p
}

/// `p` is a suffix of `s`.
pub open spec fn has_suffix(s: Seq<char>, p: Seq<char>) -> bool {
    p.len() <= s.len() && s.skip(s.len() - p.len()) == p
}

/// `p` occurs in `s` starting at `i`.
pub open spec fn matches_at(s: Seq<char>, p: Seq<char>, i: int) -> bool {
    0 <= i && i + p.len() <= s.len() && s.subrange(i, i + p.len()) == p
}

/// `p` occurs somewhere in `s`.
pub open spec fn contains_seq(s: Seq<char>, p: Seq<char>) -> bool {
    exists|i: int| matches_at(s, p, i)
}

pub fn starts_with_str(s: &str, p: &str) -> (r: bool)
    ensures
        r == has_prefix(s@, p@),
{
    let m = p.unicode_len();
    let n = s.unicode_len();
    if m > n {
        return false;
    }
    let mut i: usize = 0;
    while i < m
        invariant
            0 <= i <= m,
            m == p@.len(),
            n == s@.len(),
            m <= n,
            forall|j: int| 0 <= j < i ==> s@[j] == p@[j],
        decreases m - i,
    {
        if s.get_char(i) != p.get_char(i) {
            assert(s@.take(m as int)[i as int] != p@[i as int]);
            return false;
        }
        i = i + 1;
    }
    proof {
        assert(s@.take(m as int) =~= p@);
    }
    true
}

pub fn ends_with_str(s: &str, p: &str) -> (r: bool)
    ensures
        r == has_suffix(s@, p@),
{
    let m = p.unicode_len();
    let n = s.unicode_len();
    if m > n {
        return false;
    }
    let mut i: usize = 0;
    while i < m
        invariant
            0 <= i <= m,
            m == p@.len(),
            n == s@.len(),
            m <= n,
            forall|j: int| 0 <= j < i ==> s@[n - m + j] == p@[j],
        decreases m - i,
    {
        if s.get_char(n - m + i) != p.get_char(i) {
            assert(s@.skip(n - m)[i as int] != p@[i as int]);
            return false;
        }
        i = i + 1;
    }
    proof {
        assert(s@.skip(n - m) =~= p@);
    }
    true
}

/// Whether `p` occurs in `s` starting at position `i`.
fn matches_at_exec(s: &str, p: &str, i: usize) -> (r: bool)
    requires
        i + p@.len() <= s@.len(),
    ensures
        r == matches_at(s@, p@, i as int),
{
    let m = p.unicode_len();
    let n = s.unicode_len();
    let mut j: usize = 0;
    while j < m
        invariant
            0 <= j <= m,
            m == p@.len(),
            n == s@.len(),
            i + m <= s@.len(),
            forall|k: int| 0 <= k < j ==> s@[i + k] == p@[k],
        decreases m - j,
    {
        if s.get_char(i + j) != p.get_char(j) {
            assert(s@.subrange(i as int, i + m) [j as int] != p@[j as int]);
            return false;
        }
        j = j + 1;
    }
    proof {
        assert(s@.subrange(i as int, i + m) =~= p@);
    }
    true
}

pub fn contains_str(s: &str, p: &str) -> (r: bool)
    ensures
        r == contains_seq(s@, p@),
{
    let m = p.unicode_len();
    let n = s.unicode_len();
    if m > n {
        assert(forall|i: int| !matches_at(s@, p@, i));
        return false;
    }
    if m == 0 {
        proof {
            assert(s@.subrange(0, 0) =~= p@);
            assert(matches_at(s@, p@, 0));
        }
        return true;
    }
    let mut i: usize = 0;
    while i <= n - m
        invariant
            0 <= i <= n - m + 1,
            m == p@.len(),
            n == s@.len(),
            1 <= m <= n,
            forall|k: int| 0 <= k < i ==> !matches_at(s@, p@, k),
        decreases n - i,
    {
        if matches_at_exec(s, p, i) {
            return true;
        }
        i = i + 1;
    }
    assert(forall|k: int| matches_at(s@, p@, k) ==> 0 <= k <= n - m);
    false
}

/// The pieces of `s` delimited by `d`, in order, as `str::split` has them:
/// an empty `s` or a delimiter at either end contributes an empty piece,
/// and an empty delimiter splits between every character, with an empty
/// piece at either end.
pub open spec fn split_spec(s: Seq<char>, d: Seq<char>) -> Seq<Seq<char>>
    decreases s.len(),
{
    if d.len() == 0 {
        seq![Seq::<char>::empty()] + s.map_values(|c: char| seq![c]) + seq![Seq::<char>::empty()]
    } else if s.len() < d.len() {
        seq![s]
    } else if s.take(d.len() as int) == d {
        seq![Seq::<char>::empty()] + split_spec(s.skip(d.len() as int), d)
    } else {
        let r = split_spec(s.drop_first(), d);
        r.update(0, seq![s[0]] + r[0])
    }
}

pub proof fn lemma_split_spec_len(s: Seq<char>, d: Seq<char>)
    ensures
        split_spec(s, d).len() >= 1,
    decreases s.len(),
{
    if d.len() == 0 || s.len() < d.len() {
    } else if s.take(d.len() as int) == d {
        lemma_split_spec_len(s.skip(d.len() as int), d)
    } else {
        lemma_split_spec_len(s.drop_first(), d)
    }
}

/// Splits `s` on the delimiter, as `str::split` does.
pub fn split_str(s: &str, delim: &str) -> (r: Vec<String>)
    ensures
        r.deep_view() == split_spec(s@, delim@),
        r@.len() >= 1,
    decreases s@.len(),
{
    proof {
        lemma_split_spec_len(s@, delim@);
    }
    let m = delim.unicode_len();
    let n = s.unicode_len();
    if m == 0 {
        let ghost mid = s@.map_values(|c: char| seq![c]);
        let mut v: Vec<String> = Vec::new();
        v.push(String::new());
        let mut i: usize = 0;
        while i < n
            invariant
                0 <= i <= n,
                n == s@.len(),
                mid == s@.map_values(|c: char| seq![c]),
                v@.len() == i + 1,
                v@[0]@ == Seq::<char>::empty(),
                forall|j: int| 1 <= j <= i ==> (#[trigger] v@[j])@ == mid[j - 1],
            decreases n - i,
        {
            let mut piece = String::new();
            push_char(&mut piece, s.get_char(i));
            proof {
                assert(piece@ =~= seq![s@[i as int]]);
                assert(mid[i as int] == seq![s@[i as int]]);
            }
            v.push(piece);
            i = i + 1;
        }
        let ghost before_last = v@;
        v.push(String::new());
        proof {
            assert(forall|j: int| 0 <= j < before_last.len() ==> v@[j] == before_last[j]);
            assert forall|j: int| 1 <= j <= n implies (#[trigger] v@[j])@ == seq![s@[j - 1]] by {
                assert(before_last[j]@ == mid[j - 1]);
            }
            assert(v.deep_view() =~= split_spec(s@, delim@));
        }
        return v;
    }
    if n < m {
        let mut v: Vec<String> = Vec::new();
        v.push(s.to_owned());
        proof {
            assert(v.deep_view() =~= seq![s@]);
        }
        return v;
    }
    if starts_with_str(s, delim) {
        let rest = s.substring_char(m, n);
        let mut v = split_str(rest, delim);
        v.insert(0, String::new());
        proof {
            assert(v.deep_view() =~= seq![Seq::<char>::empty()] + split_spec(s@.skip(m as int), delim@));
        }
        v
    } else {
        let c = s.get_char(0);
        let rest = s.substring_char(1, n);
        let mut v = split_str(rest, delim);
        let ghost rec = split_spec(s@.drop_first(), delim@);
        let tail = v.remove(0);
        let mut head = String::new();
        push_char(&mut head, c);
        head.append(tail.as_str());
        v.insert(0, head);
        proof {
            assert(head@ =~= seq![s@[0]] + rec[0]);
            assert(v.deep_view() =~= rec.update(0, seq![s@[0]] + rec[0]));
        }
        v
    }
}

/// `s` with the prefix `p` removed when it is one, else `s` unchanged.
pub open spec fn strip_prefix_spec(s: Seq<char>, p: Seq<char>) -> Seq<char> {
    if has_prefix(s, p) {
        s.skip(p.len() as int)
    } else {
        s
    }
}

/// The argument text handed to a plugin: the full input with the binding
/// token (when it is a prefix) and the following white space removed.
pub fn helper_get_args(full_args: &str, binding: &str) -> (r: String)
    ensures
        r@ == trim_start_spec(strip_prefix_spec(full_args@, binding@)),
{
    if starts_with_str(full_args, binding) {
        let rest = full_args.substring_char(binding.unicode_len(), full_args.unicode_len());
        trim_start_str(rest).to_owned()
    } else {
        trim_start_str(full_args).to_owned()
    }
}

/// Relies on `String::push`: appends the one character to the string.
#[verifier::external_body]
pub fn push_char(s: &mut String, c: char)
    ensures
        final(s)@ == old(s)@.push(c),
{
    s.push(c);
}

/// The Unicode upper-case form of `s`: a function of the characters alone.
pub uninterp spec fn upper_of(s: Seq<char>) -> Seq<char>;

/// The Unicode lower-case form of `s`: a function of the characters alone.
pub uninterp spec fn lower_of(s: Seq<char>) -> Seq<char>;

/// Relies on `str::to_uppercase`: the Unicode upper-case of the characters,
/// depending on nothing but them; empty input stays empty.
#[verifier::external_body]
pub fn upper_str(s: &str) -> (r: String)
    ensures
        r@ == upper_of(s@),
        s@.len() == 0 ==> r@.len() == 0,
{
    s.to_uppercase()
}

/// Relies on `str::to_lowercase`: the Unicode lower-case of the characters,
/// depending on nothing but them; empty input stays empty.
#[verifier::external_body]
pub fn lower_str(s: &str) -> (r: String)
    ensures
        r@ == lower_of(s@),
        s@.len() == 0 ==> r@.len() == 0,
{
    s.to_lowercase()
}

} // verus!
