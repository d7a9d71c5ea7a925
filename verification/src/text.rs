//! Verified text utilities the pipeline is built from: splitting on a
//! separator character, joining with a separator, dropping quote characters,
//! and string equality, each against a recursive specification over the
//! string's sequence of characters.

use vstd::prelude::*;

verus! {

/// Relies on `String::push` of the standard library: appends the given
/// character to the end of the string.
pub assume_specification[ String::push ](s: &mut String, ch: char)
    ensures
        final(s)@ == old(s)@.push(ch),
;

/// The pieces of `s` split on every occurrence of `sep`: always at least one
/// piece; an empty input gives one empty piece.
pub open spec fn split_char(s: Seq<char>, sep: char) -> Seq<Seq<char>>
    decreases s.len(),
{
    if s.len() == 0 {
        seq![Seq::<char>::empty()]
    } else {
        let r = split_char(s.drop_last(), sep);
        if s.last() == sep {
            r.push(Seq::<char>::empty())
        } else {
            r.update(r.len() - 1, r.last().push(s.last()))
        }
    }
}

/// The pieces joined back with `sep` between them.
pub open spec fn join_char(ps: Seq<Seq<char>>, sep: char) -> Seq<char>
    decreases ps.len(),
{
    if ps.len() == 0 {
        Seq::<char>::empty()
    } else if ps.len() == 1 {
        ps[0]
    } else {
        join_char(ps.drop_last(), sep) + seq![sep] + ps.last()
    }
}

/// `s` with every `'"'` character removed.
pub open spec fn strip_quotes_spec(s: Seq<char>) -> Seq<char>
    decreases s.len(),
{
    if s.len() == 0 {
        Seq::<char>::empty()
    } else if s.last() == '"' {
        strip_quotes_spec(s.drop_last())
    } else {
        strip_quotes_spec(s.drop_last()).push(s.last())
    }
}

pub proof fn lemma_split_char_len(s: Seq<char>, sep: char)
    ensures
        split_char(s, sep).len() >= 1,
    decreases s.len(),
{
    if s.len() > 0 {
        lemma_split_char_len(s.drop_last(), sep);
    }
}

/// No piece of a split contains the separator it was split on.
pub proof fn lemma_split_char_no_sep(s: Seq<char>, sep: char)
    ensures
        forall|i: int, j: int|
            0 <= i < split_char(s, sep).len() && 0 <= j < split_char(s, sep)[i].len()
                ==> split_char(s, sep)[i][j] != sep,
    decreases s.len(),
{
    if s.len() > 0 {
        lemma_split_char_no_sep(s.drop_last(), sep);
        lemma_split_char_len(s.drop_last(), sep);
    }
}

/// No character of `s` is `c`.
pub open spec fn char_free(s: Seq<char>, c: char) -> bool {
    forall|i: int| 0 <= i < s.len() ==> s[i] != c
}

/// A separator-free string splits into itself alone.
pub proof fn lemma_split_char_sepfree(s: Seq<char>, sep: char)
    requires
        char_free(s, sep),
    ensures
        split_char(s, sep) =~~= seq![s],
    decreases s.len(),
{
    if s.len() == 0 {
        assert(split_char(s, sep) =~~= seq![s]);
    } else {
        assert(char_free(s.drop_last(), sep));
        lemma_split_char_sepfree(s.drop_last(), sep);
        assert(split_char(s, sep) =~~= seq![s]);
    }
}

/// Appending separator-free text extends the last piece of a split.
pub proof fn lemma_split_char_append_sepfree(s: Seq<char>, t: Seq<char>, sep: char)
    requires
        char_free(t, sep),
    ensures
        split_char(s + t, sep) =~~= split_char(s, sep).update(
            split_char(s, sep).len() - 1,
            split_char(s, sep).last() + t,
        ),
    decreases t.len(),
{
    lemma_split_char_len(s, sep);
    if t.len() == 0 {
        assert(s + t =~= s);
        assert(split_char(s, sep).last() + t =~= split_char(s, sep).last());
    } else {
        assert(char_free(t.drop_last(), sep));
        lemma_split_char_append_sepfree(s, t.drop_last(), sep);
        assert((s + t).drop_last() =~= s + t.drop_last());
        assert((s + t).last() == t.last());
        assert(split_char(s, sep).last() + t.drop_last() + seq![t.last()] =~= split_char(
            s,
            sep,
        ).last() + t);
    }
}

/// Appending the separator itself opens a new empty piece.
pub proof fn lemma_split_char_push_sep(s: Seq<char>, sep: char)
    ensures
        split_char(s + seq![sep], sep) =~~= split_char(s, sep).push(Seq::<char>::empty()),
{
    assert((s + seq![sep]).drop_last() =~= s);
    assert((s + seq![sep]).last() == sep);
}

/// Joining pieces and splitting again gives the pieces back, provided none
/// of them holds the separator.
pub proof fn lemma_split_join(ps: Seq<Seq<char>>, sep: char)
    requires
        ps.len() >= 1,
        forall|i: int| 0 <= i < ps.len() ==> char_free(#[trigger] ps[i], sep),
    ensures
        split_char(join_char(ps, sep), sep) =~~= ps,
    decreases ps.len(),
{
    if ps.len() == 1 {
        lemma_split_char_sepfree(ps[0], sep);
    } else {
        assert(forall|i: int|
            0 <= i < ps.drop_last().len() ==> char_free(#[trigger] ps.drop_last()[i], sep));
        lemma_split_join(ps.drop_last(), sep);
        let a = join_char(ps.drop_last(), sep);
        assert(join_char(ps, sep) =~= (a + seq![sep]) + ps.last());
        lemma_split_char_push_sep(a, sep);
        lemma_split_char_append_sepfree(a + seq![sep], ps.last(), sep);
        assert(split_char(a + seq![sep], sep) =~~= ps.drop_last().push(Seq::<char>::empty()));
        assert(Seq::<char>::empty() + ps.last() =~= ps.last());
        assert(split_char(join_char(ps, sep), sep) =~~= ps);
    }
}

/// Stripping quotes never introduces a character.
pub proof fn lemma_strip_preserves_free(s: Seq<char>, c: char)
    requires
        char_free(s, c),
    ensures
        char_free(strip_quotes_spec(s), c),
    decreases s.len(),
{
    if s.len() > 0 {
        assert(char_free(s.drop_last(), c));
        lemma_strip_preserves_free(s.drop_last(), c);
    }
}

/// Stripping quotes leaves no quote behind.
pub proof fn lemma_strip_noquote(s: Seq<char>)
    ensures
        char_free(strip_quotes_spec(s), '"'),
    decreases s.len(),
{
    if s.len() > 0 {
        lemma_strip_noquote(s.drop_last());
    }
}

/// Stripping a quote-free string changes nothing.
pub proof fn lemma_strip_identity(s: Seq<char>)
    requires
        char_free(s, '"'),
    ensures
        strip_quotes_spec(s) =~= s,
    decreases s.len(),
{
    if s.len() > 0 {
        assert(char_free(s.drop_last(), '"'));
        lemma_strip_identity(s.drop_last());
    }
}

/// Splits a string on a separator character. The result always holds at
/// least one piece.
pub fn split_str_on(s: &str, sep: char) -> (r: Vec<String>)
    ensures
        r@.len() == split_char(s@, sep).len(),
        forall|i: int| 0 <= i < r@.len() ==> r@[i]@ == split_char(s@, sep)[i],
        r@.len() >= 1,
{
    let n = s.unicode_len();
    let mut out: Vec<String> = Vec::new();
    let mut cur: String = String::new();
    let mut i: usize = 0;
    proof {
        assert(s@.take(0) =~= Seq::<char>::empty());
    }
    while i < n
        invariant
            i <= n,
            n == s@.len(),
            out@.len() + 1 == split_char(s@.take(i as int), sep).len(),
            forall|j: int|
                0 <= j < out@.len() ==> out@[j]@ == split_char(s@.take(i as int), sep)[j],
            cur@ == split_char(s@.take(i as int), sep).last(),
        decreases n - i,
    {
        proof {
            assert(s@.take(i + 1).drop_last() =~= s@.take(i as int));
            assert(s@.take(i + 1).last() == s@[i as int]);
            lemma_split_char_len(s@.take(i as int), sep);
        }
        let c = s.get_char(i);
        if c == sep {
            out.push(cur);
            cur = String::new();
        } else {
            cur.push(c);
        }
        i = i + 1;
    }
    proof {
        assert(s@.take(n as int) =~= s@);
        lemma_split_char_len(s@, sep);
    }
    out.push(cur);
    out
}

/// Joins the pieces with the separator between consecutive pieces.
pub fn join_with(parts: &Vec<String>, sep: char) -> (r: String)
    ensures
        r@ == join_char(Seq::new(parts@.len(), |i: int| parts@[i]@), sep),
{
    let ghost ps = Seq::new(parts@.len(), |i: int| parts@[i]@);
    let mut r = String::new();
    let mut i: usize = 0;
    while i < parts.len()
        invariant
            i <= parts.len(),
            ps == Seq::new(parts@.len(), |j: int| parts@[j]@),
            r@ == join_char(ps.take(i as int), sep),
        decreases parts.len() - i,
    {
        proof {
            assert(ps.take(i + 1).drop_last() =~= ps.take(i as int));
            assert(ps.take(i + 1).last() == ps[i as int]);
        }
        if i > 0 {
            r.push(sep);
        }
        r.append(parts[i].as_str());
        proof {
            if i == 0 {
                assert(r@ =~= join_char(ps.take(1), sep));
            } else {
                assert(r@ =~= join_char(ps.take(i + 1), sep));
            }
        }
        i = i + 1;
    }
    proof {
        assert(ps.take(parts@.len() as int) =~= ps);
    }
    r
}

/// Removes every quote character from a line.
pub fn strip_quotes(s: &str) -> (r: String)
    ensures
        r@ == strip_quotes_spec(s@),
{
    let n = s.unicode_len();
    let mut r = String::new();
    let mut i: usize = 0;
    proof {
        assert(s@.take(0) =~= Seq::<char>::empty());
    }
    while i < n
        invariant
            i <= n,
            n == s@.len(),
            r@ == strip_quotes_spec(s@.take(i as int)),
        decreases n - i,
    {
        proof {
            assert(s@.take(i + 1).drop_last() =~= s@.take(i as int));
            assert(s@.take(i + 1).last() == s@[i as int]);
        }
        let c = s.get_char(i);
        if c != '"' {
            r.push(c);
        }
        i = i + 1;
    }
    proof {
        assert(s@.take(n as int) =~= s@);
    }
    r
}

/// Character-for-character string equality.
pub fn str_eq(a: &str, b: &str) -> (r: bool)
    ensures
        r == (a@ == b@),
{
    let na = a.unicode_len();
    let nb = b.unicode_len();
    if na != nb {
        return false;
    }
    let mut i: usize = 0;
    while i < na
        invariant
            i <= na,
            na == a@.len(),
            na == b@.len(),
            forall|j: int| 0 <= j < i ==> a@[j] == b@[j],
        decreases na - i,
    {
        if a.get_char(i) != b.get_char(i) {
            return false;
        }
        i = i + 1;
    }
    proof {
        assert(a@ =~= b@);
    }
    true
}

} // verus!
