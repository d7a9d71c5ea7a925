//! Substring search, the header-marker split that partitions the raw feed
//! into per-order pieces, and the slash-pair normalization applied to the
//! ship-to name.

use vstd::prelude::*;

verus! {

/// The pattern occurs in `s` at position `i`.
pub open spec fn pat_match_at(s: Seq<char>, pat: Seq<char>, i: int) -> bool {
    0 <= i && i + pat.len() <= s.len() && s.subrange(i, i + pat.len()) == pat
}

/// The position of the leftmost occurrence of `pat` at or after `k`, or
/// `s.len()` when there is none (or the pattern is empty).
pub open spec fn find_pat_from(s: Seq<char>, pat: Seq<char>, k: int) -> int
    decreases s.len() - k,
{
    if pat.len() == 0 || !(0 <= k && k + pat.len() <= s.len()) {
        s.len() as int
    } else if pat_match_at(s, pat, k) {
        k
    } else {
        find_pat_from(s, pat, k + 1)
    }
}

pub proof fn lemma_find_pat_from_bounds(s: Seq<char>, pat: Seq<char>, k: int)
    requires
        0 <= k <= s.len(),
    ensures
        k <= find_pat_from(s, pat, k) <= s.len(),
    decreases s.len() - k,
{
    if !(pat.len() == 0 || !(0 <= k && k + pat.len() <= s.len())) && !pat_match_at(s, pat, k) {
        lemma_find_pat_from_bounds(s, pat, k + 1);
    }
}

/// Whether `pat` occurs in `s` at position `i`.
fn match_at(s: &str, pat: &str, i: usize) -> (b: bool)
    requires
        i + pat@.len() <= s@.len(),
    ensures
        b == pat_match_at(s@, pat@, i as int),
{
    let n = s.unicode_len();
    let m = pat.unicode_len();
    let mut j: usize = 0;
    while j < m
        invariant
            j <= m,
            m == pat@.len(),
            n == s@.len(),
            i + m <= n,
            forall|l: int| 0 <= l < j ==> s@[i + l] == pat@[l],
        decreases m - j,
    {
        if s.get_char(i + j) != pat.get_char(j) {
            proof {
                assert(s@.subrange(i as int, i + pat@.len())[j as int] != pat@[j as int]);
            }
            return false;
        }
        j = j + 1;
    }
    proof {
        assert(s@.subrange(i as int, i + pat@.len()) =~= pat@);
    }
    true
}

/// The leftmost occurrence of `pat` in `s`, or the character length of `s`
/// when there is none.
fn find_pat(s: &str, pat: &str) -> (r: usize)
    ensures
        r as int == find_pat_from(s@, pat@, 0),
{
    let n = s.unicode_len();
    let m = pat.unicode_len();
    if m == 0 || m > n {
        return n;
    }
    let mut i: usize = 0;
    while i <= n - m
        invariant
            0 <= i <= n - m + 1,
            m >= 1,
            m <= n,
            n == s@.len(),
            m == pat@.len(),
            find_pat_from(s@, pat@, 0) == find_pat_from(s@, pat@, i as int),
        decreases n - i,
    {
        if match_at(s, pat, i) {
            return i;
        }
        i = i + 1;
    }
    n
}

/// The three-character token that marks the start of an order's header line
/// in the raw feed.
pub open spec fn header_marker() -> Seq<char> {
    seq!['"', 'H', '"']
}

/// The pieces of the feed around each occurrence of the header marker: the
/// text before the first marker (the pre-amble), then the text between
/// consecutive markers.
pub open spec fn split_marker(s: Seq<char>) -> Seq<Seq<char>>
    decreases s.len(),
    via split_marker_dec
{
    let i = find_pat_from(s, header_marker(), 0);
    if i + 3 <= s.len() {
        seq![s.take(i)] + split_marker(s.skip(i + 3))
    } else {
        seq![s]
    }
}

#[via_fn]
proof fn split_marker_dec(s: Seq<char>) {
    lemma_find_pat_from_bounds(s, header_marker(), 0);
}

/// How many header markers the feed holds (counting non-overlapping
/// occurrences from the left).
pub open spec fn marker_count(s: Seq<char>) -> nat
    decreases s.len(),
    via marker_count_dec
{
    let i = find_pat_from(s, header_marker(), 0);
    if i + 3 <= s.len() {
        1 + marker_count(s.skip(i + 3))
    } else {
        0
    }
}

#[via_fn]
proof fn marker_count_dec(s: Seq<char>) {
    lemma_find_pat_from_bounds(s, header_marker(), 0);
}

/// A split always yields one piece more than there are markers.
pub proof fn lemma_split_marker_count(s: Seq<char>)
    ensures
        split_marker(s).len() == marker_count(s) + 1,
    decreases s.len(),
{
    lemma_find_pat_from_bounds(s, header_marker(), 0);
    let i = find_pat_from(s, header_marker(), 0);
    if i + 3 <= s.len() {
        lemma_split_marker_count(s.skip(i + 3));
    }
}

/// Splits the raw feed text on each occurrence of the header marker.
pub fn split_on_header_marker(s: &str) -> (r: Vec<String>)
    ensures
        r@.len() == split_marker(s@).len(),
        forall|i: int| 0 <= i < r@.len() ==> r@[i]@ == split_marker(s@)[i],
    decreases s@.len(),
{
    proof {
        reveal_strlit("\"H\"");
        assert("\"H\""@ =~= header_marker());
        lemma_find_pat_from_bounds(s@, header_marker(), 0);
    }
    let n = s.unicode_len();
    let idx = find_pat(s, "\"H\"");
    let mut out: Vec<String> = Vec::new();
    if n >= 3 && idx <= n - 3 {
        let head = s.substring_char(0, idx);
        let tail = s.substring_char(idx + 3, n);
        proof {
            assert(head@ =~= s@.take(idx as int));
            assert(tail@ =~= s@.skip(idx + 3));
        }
        out.push(String::from_str(head));
        let mut rest = split_on_header_marker(tail);
        out.append(&mut rest);
    } else {
        out.push(String::from_str(s));
    }
    out
}

/// The two-character token that stands for a line break inside the ship-to
/// name field.
pub open spec fn double_slash() -> Seq<char> {
    seq!['/', '/']
}

/// `s` with every occurrence of `//` replaced by a single space.
pub open spec fn replace_dslash(s: Seq<char>) -> Seq<char>
    decreases s.len(),
    via replace_dslash_dec
{
    let i = find_pat_from(s, double_slash(), 0);
    if i + 2 <= s.len() {
        s.take(i) + seq![' '] + replace_dslash(s.skip(i + 2))
    } else {
        s
    }
}

#[via_fn]
proof fn replace_dslash_dec(s: Seq<char>) {
    lemma_find_pat_from_bounds(s, double_slash(), 0);
}

/// Replaces every `//` in the ship-to name with a space.
pub fn replace_double_slash(s: &str) -> (r: String)
    ensures
        r@ == replace_dslash(s@),
    decreases s@.len(),
{
    proof {
        reveal_strlit("//");
        assert("//"@ =~= double_slash());
        lemma_find_pat_from_bounds(s@, double_slash(), 0);
    }
    let n = s.unicode_len();
    let idx = find_pat(s, "//");
    if n >= 2 && idx <= n - 2 {
        let head = s.substring_char(0, idx);
        let tail = s.substring_char(idx + 2, n);
        proof {
            assert(head@ =~= s@.take(idx as int));
            assert(tail@ =~= s@.skip(idx + 2));
        }
        let rest = replace_double_slash(tail);
        proof {
            reveal_strlit(" ");
        }
        let r = String::from_str(head).concat(" ").concat(rest.as_str());
        proof {
            assert(" "@ =~= seq![' ']);
            assert(r@ =~= replace_dslash(s@));
        }
        r
    } else {
        String::from_str(s)
    }
}

} // verus!
