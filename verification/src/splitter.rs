//! The feed splitter: partitions the raw feed text into per-order blocks on
//! the header marker, drops special-instruction lines, and strips the
//! quoting convention from the retained lines.

use crate::patterns::{
    header_marker, lemma_split_marker_count, marker_count, split_marker, split_on_header_marker,
};
use crate::text::{
    char_free, join_char, join_with, lemma_split_char_no_sep, lemma_split_join,
    lemma_strip_identity, lemma_strip_noquote, lemma_strip_preserves_free, split_char,
    split_str_on, strip_quotes, strip_quotes_spec,
};
use vstd::prelude::*;

verus! {

/// A special-instruction line: it opens with `"SR"~"` or `"SI"~"` and closes
/// that final quoted field with another quote character.
pub open spec fn is_special_line(l: Seq<char>) -> bool {
    &&& l.len() >= 6
    &&& l[0] == '"'
    &&& l[1] == 'S'
    &&& (l[2] == 'R' || l[2] == 'I')
    &&& l[3] == '"'
    &&& l[4] == '~'
    &&& l[5] == '"'
    &&& exists|j: int| 6 <= j < l.len() && l[j] == '"'
}

/// Relies on `regex::Regex::find` with the anchored pattern
/// `^"S(R|I)"~".*"`: on a line without line breaks it finds a match exactly
/// when the line starts with `"SR"~"` or `"SI"~"` and a further quote
/// character follows that prefix.
#[verifier::external_body]
fn is_special_instruction(line: &str) -> (r: bool)
    requires
        char_free(line@, '\n'),
    ensures
        r == is_special_line(line@),
{
    let re = regex::Regex::new("^\"S(R|I)\"~\".*\"").unwrap();
    re.find(line).is_some()
}

/// The retained lines of a block: special-instruction lines dropped, quote
/// characters stripped from the rest.
pub open spec fn clean_lines(ls: Seq<Seq<char>>) -> Seq<Seq<char>>
    decreases ls.len(),
{
    if ls.len() == 0 {
        Seq::<Seq<char>>::empty()
    } else if is_special_line(ls.last()) {
        clean_lines(ls.drop_last())
    } else {
        clean_lines(ls.drop_last()).push(strip_quotes_spec(ls.last()))
    }
}

/// A line with its one trailing carriage return removed, as a feed with
/// CRLF line endings requires.
pub open spec fn drop_cr(l: Seq<char>) -> Seq<char> {
    if l.len() > 0 && l.last() == '\r' {
        l.drop_last()
    } else {
        l
    }
}

/// The lines of a block: split at newlines, the optional final line
/// terminator producing no empty last line, and each line's trailing
/// carriage return removed.
pub open spec fn spec_lines(s: Seq<char>) -> Seq<Seq<char>> {
    let ps = split_char(s, '\n');
    let ps2 = if ps.len() > 0 && ps[ps.len() - 1].len() == 0 {
        ps.drop_last()
    } else {
        ps
    };
    Seq::new(ps2.len(), |i: int| drop_cr(ps2[i]))
}

/// One block after cleaning: its lines filtered and stripped, joined back
/// with newlines and without a trailing line terminator.
pub open spec fn clean_spec(b: Seq<char>) -> Seq<char> {
    join_char(clean_lines(spec_lines(b)), '\n')
}

/// Removes special-instruction lines from a block and strips quote
/// characters from the retained lines.
pub fn clean_block(block: &str) -> (r: String)
    ensures
        r@ == clean_spec(block@),
{
    let ghost ps = split_char(block@, '\n');
    let mut lines = split_str_on(block, '\n');
    proof {
        lemma_split_char_no_sep(block@, '\n');
    }
    if lines[lines.len() - 1].as_str().is_empty() {
        lines.pop();
    }
    let ghost ps2 = if ps.len() > 0 && ps[ps.len() - 1].len() == 0 {
        ps.drop_last()
    } else {
        ps
    };
    let ghost ls = spec_lines(block@);
    proof {
        assert(lines@.len() == ps2.len());
        assert(forall|j: int| 0 <= j < ps2.len() ==> lines@[j]@ == ps2[j]);
        assert(ls.take(0) =~= Seq::<Seq<char>>::empty());
    }
    let mut kept: Vec<String> = Vec::new();
    let mut i: usize = 0;
    while i < lines.len()
        invariant
            i <= lines.len(),
            lines@.len() == ps2.len(),
            forall|j: int| 0 <= j < ps2.len() ==> lines@[j]@ == ps2[j],
            forall|j1: int, j2: int|
                0 <= j1 < ps2.len() && 0 <= j2 < ps2[j1].len() ==> ps2[j1][j2] != '\n',
            ls.len() == ps2.len(),
            forall|j: int| 0 <= j < ps2.len() ==> ls[j] == drop_cr(#[trigger] ps2[j]),
            kept@.len() == clean_lines(ls.take(i as int)).len(),
            forall|j: int|
                0 <= j < kept@.len() ==> kept@[j]@ == clean_lines(ls.take(i as int))[j],
        decreases lines.len() - i,
    {
        proof {
            assert(ls.take(i + 1).drop_last() =~= ls.take(i as int));
            assert(ls.take(i + 1).last() == ls[i as int]);
        }
        let full = lines[i].as_str();
        let n = full.unicode_len();
        let line: &str = if n > 0 && full.get_char(n - 1) == '\r' {
            let cut = full.substring_char(0, n - 1);
            proof {
                assert(cut@ =~= full@.drop_last());
            }
            cut
        } else {
            full
        };
        proof {
            assert(line@ == drop_cr(ps2[i as int]));
            assert(char_free(line@, '\n'));
        }
        if !is_special_instruction(line) {
            kept.push(strip_quotes(line));
        }
        i = i + 1;
    }
    proof {
        assert(ls.take(ls.len() as int) =~= ls);
    }
    let r = join_with(&kept, '\n');
    proof {
        assert(Seq::new(kept@.len(), |j: int| kept@[j]@) =~~= clean_lines(ls));
    }
    r
}

/// The cleaned per-order blocks of a feed: the header marker is reattached
/// to the front of every piece of the marker split, and each piece cleaned.
/// The first block stands for the content before the first marker and is
/// discarded by further processing.
pub open spec fn feed_blocks(feed: Seq<char>) -> Seq<Seq<char>> {
    Seq::new(split_marker(feed).len(), |i: int| clean_spec(header_marker() + split_marker(feed)[i]))
}

/// Splits the raw feed into cleaned per-order blocks, one more than the
/// feed holds header markers; the first is the discarded pre-amble.
pub fn split_feed(feed: &str) -> (r: Vec<String>)
    ensures
        r@.len() == feed_blocks(feed@).len(),
        r@.len() == marker_count(feed@) + 1,
        forall|i: int| 0 <= i < r@.len() ==> r@[i]@ == feed_blocks(feed@)[i],
{
    proof {
        reveal_strlit("\"H\"");
        assert("\"H\""@ =~= header_marker());
        lemma_split_marker_count(feed@);
    }
    let pieces = split_on_header_marker(feed);
    let mut out: Vec<String> = Vec::new();
    let mut i: usize = 0;
    while i < pieces.len()
        invariant
            i <= pieces.len(),
            pieces@.len() == split_marker(feed@).len(),
            forall|j: int| 0 <= j < pieces@.len() ==> pieces@[j]@ == split_marker(feed@)[j],
            "\"H\""@ == header_marker(),
            out@.len() == i,
            forall|j: int| 0 <= j < i ==> out@[j]@ == feed_blocks(feed@)[j],
        decreases pieces.len() - i,
    {
        let block = String::from_str("\"H\"").concat(pieces[i].as_str());
        out.push(clean_block(block.as_str()));
        i = i + 1;
    }
    out
}

/// Splitting a feed that holds exactly two header markers yields exactly
/// two usable order blocks beside the one discarded pre-amble.
pub proof fn lemma_two_marker_feed(feed: Seq<char>)
    requires
        marker_count(feed) == 2,
    ensures
        feed_blocks(feed).len() == 3,
{
    lemma_split_marker_count(feed);
}

proof fn lemma_clean_lines_noquote(ls: Seq<Seq<char>>)
    ensures
        forall|i: int|
            0 <= i < clean_lines(ls).len() ==> char_free(#[trigger] clean_lines(ls)[i], '"'),
    decreases ls.len(),
{
    if ls.len() > 0 {
        lemma_clean_lines_noquote(ls.drop_last());
        if !is_special_line(ls.last()) {
            lemma_strip_noquote(ls.last());
        }
        let pre = clean_lines(ls.drop_last());
        assert forall|i: int| 0 <= i < clean_lines(ls).len() implies char_free(
            #[trigger] clean_lines(ls)[i],
            '"',
        ) by {
            if i < pre.len() {
                assert(clean_lines(ls)[i] == pre[i]);
            }
        }
    }
}

proof fn lemma_clean_lines_nonewline(ls: Seq<Seq<char>>)
    requires
        forall|i: int| 0 <= i < ls.len() ==> char_free(#[trigger] ls[i], '\n'),
    ensures
        forall|i: int|
            0 <= i < clean_lines(ls).len() ==> char_free(#[trigger] clean_lines(ls)[i], '\n'),
    decreases ls.len(),
{
    if ls.len() > 0 {
        assert(forall|i: int|
            0 <= i < ls.drop_last().len() ==> char_free(#[trigger] ls.drop_last()[i], '\n'));
        lemma_clean_lines_nonewline(ls.drop_last());
        if !is_special_line(ls.last()) {
            lemma_strip_preserves_free(ls.last(), '\n');
        }
        let pre = clean_lines(ls.drop_last());
        assert forall|i: int| 0 <= i < clean_lines(ls).len() implies char_free(
            #[trigger] clean_lines(ls)[i],
            '\n',
        ) by {
            if i < pre.len() {
                assert(clean_lines(ls)[i] == pre[i]);
            }
        }
    }
}

proof fn lemma_clean_lines_fixed(ls: Seq<Seq<char>>)
    requires
        forall|i: int| 0 <= i < ls.len() ==> char_free(#[trigger] ls[i], '"'),
    ensures
        clean_lines(ls) =~~= ls,
    decreases ls.len(),
{
    if ls.len() > 0 {
        assert(forall|i: int|
            0 <= i < ls.drop_last().len() ==> char_free(#[trigger] ls.drop_last()[i], '"'));
        lemma_clean_lines_fixed(ls.drop_last());
        assert(!is_special_line(ls.last()));
        lemma_strip_identity(ls.last());
    }
}

/// The line filter is idempotent: running it again over lines it has
/// already filtered and stripped drops nothing further and changes
/// nothing.
pub proof fn lemma_clean_lines_idempotent(ls: Seq<Seq<char>>)
    ensures
        clean_lines(clean_lines(ls)) == clean_lines(ls),
{
    lemma_clean_lines_noquote(ls);
    lemma_clean_lines_fixed(clean_lines(ls));
}

/// Cleaning a whole block is idempotent wherever the cleaned text re-splits
/// into the same lines: no cleaned line may end in a carriage return (the
/// second pass would strip it) and the last cleaned line may not be empty
/// (the second pass would read the joining newline before it as a final
/// line terminator).
pub proof fn lemma_clean_idempotent(b: Seq<char>)
    requires
        forall|i: int|
            0 <= i < clean_lines(spec_lines(b)).len() && #[trigger] clean_lines(
                spec_lines(b),
            )[i].len() > 0 ==> clean_lines(spec_lines(b))[i].last() != '\r',
        clean_lines(spec_lines(b)).len() >= 2 ==> clean_lines(spec_lines(b)).last().len() > 0,
    ensures
        clean_spec(clean_spec(b)) == clean_spec(b),
{
    let ls = spec_lines(b);
    let cl = clean_lines(ls);
    let c = clean_spec(b);
    lemma_split_char_no_sep(b, '\n');
    let ps = split_char(b, '\n');
    let ps2 = if ps.len() > 0 && ps[ps.len() - 1].len() == 0 {
        ps.drop_last()
    } else {
        ps
    };
    assert(forall|i: int| 0 <= i < ls.len() ==> ls[i] == drop_cr(#[trigger] ps2[i]));
    assert(forall|i: int| 0 <= i < ls.len() ==> char_free(#[trigger] ls[i], '\n'));
    lemma_clean_lines_noquote(ls);
    lemma_clean_lines_nonewline(ls);
    if cl.len() == 0 || (cl.len() == 1 && cl[0].len() == 0) {
        assert(c =~= Seq::<char>::empty());
        let ps_c = split_char(c, '\n');
        assert(ps_c =~~= seq![Seq::<char>::empty()]);
        assert(ps_c[0].len() == 0);
        assert(ps_c.drop_last() =~~= Seq::<Seq<char>>::empty());
        assert(spec_lines(c) =~~= Seq::<Seq<char>>::empty());
        assert(clean_lines(spec_lines(c)) =~~= Seq::<Seq<char>>::empty());
        assert(clean_spec(c) =~= c);
    } else {
        lemma_split_join(cl, '\n');
        let ps_c = split_char(c, '\n');
        assert(ps_c =~~= cl);
        assert(ps_c[ps_c.len() - 1].len() > 0);
        assert(spec_lines(c) =~~= cl) by {
            assert(forall|i: int|
                0 <= i < cl.len() ==> drop_cr(#[trigger] ps_c[i]) == cl[i]);
        }
        lemma_clean_lines_fixed(cl);
        assert(clean_spec(c) == join_char(clean_lines(cl), '\n'));
        assert(clean_lines(cl) =~~= cl);
    }
}

} // verus!
