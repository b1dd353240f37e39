//! Verified percent-encoding of strings for URLs, in the two variants the
//! plugin helper surface exposes: a query variant that keeps only ASCII
//! alphanumerics, and a path variant with a narrower reserved set.

use vstd::prelude::*;
use vstd::string::StrSliceExecFns;
use vstd::string::StringExecFns;
use vstd::string::StringSliceAdditionalSpecFns;
use vstd::utf8::decode_utf8;
use vstd::utf8::encode_utf8;

use crate::text::push_char;

verus! {

/// The upper-case hexadecimal digit for `n`.
pub open spec fn hex_upper(n: u8) -> char
    recommends
        n < 16,
{
    if n < 10 {
        ((n + 0x30) as char)
    } else {
        ((n + 0x37) as char)
    }
}

/// The three-character `%XY` form of byte `b`, with upper-case hex digits.
pub open spec fn pct_byte(b: u8) -> Seq<char> {
    seq!['%', hex_upper(b / 16), hex_upper(b % 16)]
}

/// Whether the query encoding passes `b` through unchanged: exactly the
/// ASCII alphanumerics (`percent_encoding::NON_ALPHANUMERIC` encodes every
/// other byte).
pub open spec fn query_keeps(b: u8) -> bool {
    (0x30 <= b && b <= 0x39) || (0x41 <= b && b <= 0x5A) || (0x61 <= b && b <= 0x7A)
}

/// Whether the path encoding passes `b` through unchanged: printable ASCII
/// outside the path-reserved set (C0 controls, DEL, space, and
/// `" # < > ? \` { }` are encoded, as is every non-ASCII byte).
pub open spec fn path_keeps(b: u8) -> bool {
    0x20 < b && b < 0x7F && b != 0x22 && b != 0x23 && b != 0x3C && b != 0x3E && b != 0x3F && b
        != 0x60 && b != 0x7B && b != 0x7D
}

/// Which bytes the selected encoding keeps.
pub open spec fn keeps(path: bool, b: u8) -> bool {
    if path {
        path_keeps(b)
    } else {
        query_keeps(b)
    }
}

/// The percent-encoding of the byte sequence `bs`: kept bytes appear as
/// their ASCII character, every other byte as `%XY`.
pub open spec fn pct_encode_bytes(bs: Seq<u8>, path: bool) -> Seq<char>
    decreases bs.len(),
{
    if bs.len() == 0 {
        Seq::<char>::empty()
    } else {
        (if keeps(path, bs[0]) {
            seq![bs[0] as char]
        } else {
            pct_byte(bs[0])
        }) + pct_encode_bytes(bs.drop_first(), path)
    }
}

/// The query percent-encoding of a string: its UTF-8 bytes, each non-ASCII
/// or non-alphanumeric byte as `%XY`.
pub open spec fn pct_query(s: Seq<char>) -> Seq<char> {
    pct_encode_bytes(encode_utf8(s), false)
}

/// The path percent-encoding of a string.
pub open spec fn pct_path(s: Seq<char>) -> Seq<char> {
    pct_encode_bytes(encode_utf8(s), true)
}

pub proof fn lemma_pct_encode_snoc(bs: Seq<u8>, b: u8, path: bool)
    ensures
        pct_encode_bytes(bs.push(b), path) == pct_encode_bytes(bs, path) + (if keeps(path, b) {
            seq![b as char]
        } else {
            pct_byte(b)
        }),
    decreases bs.len(),
{
    let tail = if keeps(path, b) {
        seq![b as char]
    } else {
        pct_byte(b)
    };
    if bs.len() == 0 {
        assert(bs =~= Seq::<u8>::empty());
        assert(bs.push(b).drop_first() =~= Seq::<u8>::empty());
        assert(bs.push(b)[0] == b);
        assert(pct_encode_bytes(Seq::<u8>::empty(), path) == Seq::<char>::empty());
        assert(pct_encode_bytes(bs.push(b), path) == tail + Seq::<char>::empty());
        assert(tail + Seq::<char>::empty() =~= Seq::<char>::empty() + tail);
        assert(pct_encode_bytes(bs.push(b), path) =~= pct_encode_bytes(bs, path) + tail);
    } else {
        assert(bs.push(b).drop_first() =~= bs.drop_first().push(b));
        lemma_pct_encode_snoc(bs.drop_first(), b, path);
        assert(bs.push(b)[0] == bs[0]);
        assert(pct_encode_bytes(bs.push(b), path) =~= pct_encode_bytes(bs, path) + tail);
    }
}

/// The value of an upper-case hexadecimal digit character.
pub open spec fn hex_digit_val(c: char) -> int {
    if 0x30 <= c as int && c as int <= 0x39 {
        c as int - 0x30
    } else {
        c as int - 0x37
    }
}

/// The byte sequence a percent-encoded character sequence denotes: a `%`
/// introduces a two-digit hexadecimal byte, any other character stands for
/// itself.
pub open spec fn pct_decode_bytes(cs: Seq<char>) -> Seq<u8>
    decreases cs.len(),
{
    if cs.len() == 0 {
        Seq::<u8>::empty()
    } else if cs[0] == '%' && cs.len() >= 3 {
        seq![((16 * hex_digit_val(cs[1]) + hex_digit_val(cs[2])) as u8)] + pct_decode_bytes(
            cs.skip(3),
        )
    } else {
        seq![(cs[0] as u8)] + pct_decode_bytes(cs.drop_first())
    }
}

/// Decoding inverts the query encoding: the query percent-encoding of any
/// byte sequence decodes back to exactly those bytes. The query set keeps
/// only ASCII alphanumerics — in particular it encodes `%` itself — so no
/// kept character can be mistaken for an escape.
pub proof fn lemma_pct_decode_query_bytes(bs: Seq<u8>)
    ensures
        pct_decode_bytes(pct_encode_bytes(bs, false)) == bs,
    decreases bs.len(),
{
    if bs.len() == 0 {
    } else {
        let b = bs[0];
        let rest = pct_encode_bytes(bs.drop_first(), false);
        lemma_pct_decode_query_bytes(bs.drop_first());
        if query_keeps(b) {
            let cs = seq![(b as char)] + rest;
            assert(pct_encode_bytes(bs, false) == cs);
            assert(cs[0] == (b as char));
            assert((b as char) as u8 == b);
            assert(cs[0] != '%');
            assert(cs.drop_first() =~= rest);
            assert(pct_decode_bytes(cs) =~= bs);
        } else {
            let cs = pct_byte(b) + rest;
            assert(pct_encode_bytes(bs, false) == cs);
            assert(cs[0] == '%');
            assert(cs[1] == hex_upper(b / 16));
            assert(cs[2] == hex_upper(b % 16));
            assert(hex_digit_val(hex_upper(b / 16)) == b / 16);
            assert(hex_digit_val(hex_upper(b % 16)) == b % 16);
            assert((16 * hex_digit_val(cs[1]) + hex_digit_val(cs[2])) as u8 == b);
            assert(cs.skip(3) =~= rest);
            assert(pct_decode_bytes(cs) =~= bs);
        }
    }
}

/// Fallback exactness, strengthened to a round trip: the percent-encoded
/// query pins the query. Decoding the query encoding of a string yields its
/// UTF-8 bytes, and decoding those yields the string itself.
pub proof fn lemma_pct_query_reversible(s: Seq<char>)
    ensures
        pct_decode_bytes(pct_query(s)) == encode_utf8(s),
        decode_utf8(pct_decode_bytes(pct_query(s))) == s,
{
    lemma_pct_decode_query_bytes(encode_utf8(s));
    vstd::utf8::encode_utf8_decode_utf8(s);
}

fn query_keeps_exec(b: u8) -> (r: bool)
    ensures
        r == query_keeps(b),
{
    (0x30 <= b && b <= 0x39) || (0x41 <= b && b <= 0x5A) || (0x61 <= b && b <= 0x7A)
}

fn path_keeps_exec(b: u8) -> (r: bool)
    ensures
        r == path_keeps(b),
{
    0x20 < b && b < 0x7F && b != 0x22 && b != 0x23 && b != 0x3C && b != 0x3E && b != 0x3F && b
        != 0x60 && b != 0x7B && b != 0x7D
}

/// Relies on `percent_encoding::percent_encode_byte`: the three-character
/// `%XY` form of `b`, with upper-case hexadecimal digits.
#[verifier::external_body]
fn percent_byte_str(b: u8) -> (r: &'static str)
    ensures
        r@ == pct_byte(b),
{
    percent_encoding::percent_encode_byte(b)
}

fn percent_encode_bytes_exec(bytes: &[u8], path: bool) -> (r: String)
    ensures
        r@ == pct_encode_bytes(bytes@, path),
{
    let n = bytes.len();
    let mut out = String::new();
    let mut i: usize = 0;
    while i < n
        invariant
            0 <= i <= n,
            n == bytes@.len(),
            out@ == pct_encode_bytes(bytes@.take(i as int), path),
        decreases n - i,
    {
        let b = bytes[i];
        proof {
            lemma_pct_encode_snoc(bytes@.take(i as int), b, path);
            assert(bytes@.take(i as int + 1) =~= bytes@.take(i as int).push(b));
        }
        let keep = if path {
            path_keeps_exec(b)
        } else {
            query_keeps_exec(b)
        };
        if keep {
            push_char(&mut out, b as char);
        } else {
            out.append(percent_byte_str(b));
        }
        i = i + 1;
    }
    proof {
        assert(bytes@.take(n as int) =~= bytes@);
    }
    out
}

/// The query percent-encoding of `s`, as
/// `percent_encoding::utf8_percent_encode` with the `NON_ALPHANUMERIC` set
/// produces it.
pub fn percent_encode_query(s: &str) -> (r: String)
    ensures
        r@ == pct_query(s@),
{
    percent_encode_bytes_exec(s.as_bytes(), false)
}

/// The path percent-encoding of `s`: like the query variant, but keeping
/// the printable ASCII characters outside the path-reserved set.
pub fn percent_encode_path(s: &str) -> (r: String)
    ensures
        r@ == pct_path(s@),
{
    percent_encode_bytes_exec(s.as_bytes(), true)
}

} // verus!
