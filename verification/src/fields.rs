//! Cutting a text into lines, into fields at a separator, and into words.
use crate::text::{char_is_space, copy_range, is_space, views};
use vstd::prelude::*;

verus! {

/// The position of the first `c` in `s`, or the length of `s` where it has none.
pub open spec fn index_of(s: Seq<char>, c: char) -> int
    decreases s.len(),
{
    if s.len() == 0 || s[0] == c {
        0
    } else {
        1 + index_of(s.drop_first(), c)
    }
}

/// The fields of `s` between the occurrences of `sep`: one more than there
/// are occurrences, each free of `sep`.
pub open spec fn split(s: Seq<char>, sep: char) -> Seq<Seq<char>>
    decreases s.len(),
{
    let i = index_of(s, sep);
    if 0 <= i < s.len() {
        seq![s.take(i)] + split(s.skip(i + 1), sep)
    } else {
        seq![s]
    }
}

/// `line` without one carriage return at its end.
pub open spec fn strip_cr(line: Seq<char>) -> Seq<char> {
    if line.len() > 0 && line.last() == '\r' {
        line.drop_last()
    } else {
        line
    }
}

/// The lines of `s`. A line ends at a line feed, or at a carriage return
/// followed by a line feed; the end of the last line may be missing, and a
/// text that ends in a line end has no empty line after it.
pub open spec fn lines(s: Seq<char>) -> Seq<Seq<char>>
    decreases s.len(),
{
    let i = index_of(s, '\n');
    if s.len() == 0 {
        seq![]
    } else if 0 <= i < s.len() {
        seq![strip_cr(s.take(i))] + lines(s.skip(i + 1))
    } else {
        seq![s]
    }
}

/// The number of characters at the start of `s` that are not white space.
pub open spec fn run_len(s: Seq<char>) -> nat
    decreases s.len(),
{
    if s.len() == 0 || is_space(s[0]) {
        0
    } else {
        1 + run_len(s.drop_first())
    }
}

/// The words of `s`: its longest runs of characters that are not white space.
pub open spec fn words(s: Seq<char>) -> Seq<Seq<char>>
    decreases s.len(),
    via words_decreases
{
    if s.len() == 0 {
        seq![]
    } else if is_space(s[0]) {
        words(s.drop_first())
    } else {
        seq![s.take(run_len(s) as int)] + words(s.skip(run_len(s) as int))
    }
}

#[via_fn]
proof fn words_decreases(s: Seq<char>) {
    lemma_run_len(s);
}

/// Before `index_of(s, c)` there is no `c`, and at it there is one unless it
/// is the length of `s`.
pub proof fn lemma_index_of(s: Seq<char>, c: char)
    ensures
        0 <= index_of(s, c) <= s.len(),
        forall|j: int| 0 <= j < index_of(s, c) ==> s[j] != c,
        index_of(s, c) < s.len() ==> s[index_of(s, c)] == c,
    decreases s.len(),
{
    if s.len() == 0 || s[0] == c {
    } else {
        let r = s.drop_first();
        lemma_index_of(r, c);
        assert forall|j: int| 0 <= j < index_of(s, c) implies s[j] != c by {
            if j > 0 {
                assert(s[j] == r[j - 1]);
            }
        }
    }
}

/// A position with no `c` before it, which holds `c` or is the end of `s`, is
/// `index_of(s, c)`.
pub proof fn lemma_index_of_is(s: Seq<char>, c: char, i: int)
    requires
        0 <= i <= s.len(),
        forall|j: int| 0 <= j < i ==> s[j] != c,
        i < s.len() ==> s[i] == c,
    ensures
        index_of(s, c) == i,
{
    lemma_index_of(s, c);
}

/// The run at the start of `s` lies in `s`, holds no white space, and ends at
/// white space or at the end of `s`. Where `s` begins with a character that
/// is not white space, the run is not empty.
pub proof fn lemma_run_len(s: Seq<char>)
    ensures
        run_len(s) <= s.len(),
        forall|j: int| 0 <= j < run_len(s) ==> !is_space(s[j]),
        run_len(s) < s.len() ==> is_space(s[run_len(s) as int]),
        s.len() > 0 && !is_space(s[0]) ==> run_len(s) >= 1,
    decreases s.len(),
{
    if s.len() == 0 || is_space(s[0]) {
    } else {
        let r = s.drop_first();
        lemma_run_len(r);
        assert forall|j: int| 0 <= j < run_len(s) implies !is_space(s[j]) by {
            if j > 0 {
                assert(s[j] == r[j - 1]);
            }
        }
    }
}

/// A position with no white space before it, which holds white space or is
/// the end of `s`, is `run_len(s)`.
pub proof fn lemma_run_len_is(s: Seq<char>, n: int)
    requires
        0 <= n <= s.len(),
        forall|j: int| 0 <= j < n ==> !is_space(s[j]),
        n < s.len() ==> is_space(s[n]),
    ensures
        run_len(s) == n,
{
    lemma_run_len(s);
}

/// The texts of `parts` with one `sep` between each two of them.
pub open spec fn join(parts: Seq<Seq<char>>, sep: char) -> Seq<char>
    decreases parts.len(),
{
    if parts.len() == 0 {
        seq![]
    } else if parts.len() == 1 {
        parts[0]
    } else {
        parts[0] + seq![sep] + join(parts.drop_first(), sep)
    }
}

/// Whether `w` is a word: not empty, and free of white space.
pub open spec fn is_word(w: Seq<char>) -> bool {
    w.len() > 0 && forall|j: int| 0 <= j < w.len() ==> !is_space(#[trigger] w[j])
}

/// Splitting loses nothing: there is at least one field, no field holds the
/// separator, and the fields joined by the separator are the text again.
pub proof fn lemma_split(s: Seq<char>, sep: char)
    ensures
        split(s, sep).len() >= 1,
        forall|i: int| 0 <= i < split(s, sep).len() ==> !(#[trigger] split(s, sep)[i]).contains(sep),
        join(split(s, sep), sep) == s,
    decreases s.len(),
{
    lemma_index_of(s, sep);
    let i = index_of(s, sep);
    if 0 <= i < s.len() {
        let head = s.take(i);
        let rest = split(s.skip(i + 1), sep);
        lemma_split(s.skip(i + 1), sep);
        let all = seq![head] + rest;
        assert(all.drop_first() =~= rest);
        assert(all[0] == head);
        assert(head + seq![sep] + s.skip(i + 1) =~= s);
        assert forall|k: int| 0 <= k < all.len() implies !(#[trigger] all[k]).contains(sep) by {
            if k > 0 {
                assert(all[k] == rest[k - 1]);
            }
        }
    } else {
        assert(seq![s][0] == s);
    }
}

/// Every line is free of line feeds.
pub proof fn lemma_lines(s: Seq<char>)
    ensures
        forall|i: int| 0 <= i < lines(s).len() ==> !(#[trigger] lines(s)[i]).contains('\n'),
    decreases s.len(),
{
    lemma_index_of(s, '\n');
    let i = index_of(s, '\n');
    if s.len() == 0 {
    } else if 0 <= i < s.len() {
        let head = strip_cr(s.take(i));
        let rest = lines(s.skip(i + 1));
        lemma_lines(s.skip(i + 1));
        let all = seq![head] + rest;
        assert forall|k: int| 0 <= k < all.len() implies !(#[trigger] all[k]).contains('\n') by {
            if k > 0 {
                assert(all[k] == rest[k - 1]);
            }
        }
    } else {
        assert(seq![s][0] == s);
    }
}

/// Every word is a word: not empty, and free of white space.
pub proof fn lemma_words(s: Seq<char>)
    ensures
        forall|i: int| 0 <= i < words(s).len() ==> is_word(#[trigger] words(s)[i]),
    decreases s.len(),
{
    if s.len() == 0 {
    } else if is_space(s[0]) {
        lemma_words(s.drop_first());
        assert(words(s) == words(s.drop_first()));
    } else {
        lemma_run_len(s);
        let n = run_len(s) as int;
        let rest = words(s.skip(n));
        lemma_words(s.skip(n));
        let all = seq![s.take(n)] + rest;
        assert(words(s) == all);
        assert(is_word(s.take(n)));
        assert forall|k: int| 0 <= k < all.len() implies is_word(#[trigger] all[k]) by {
            if k > 0 {
                assert(all[k] == rest[k - 1]);
            }
        }
    }
}

/// The fields of `s` between the occurrences of `sep`.
pub fn split_on(s: &Vec<char>, sep: char) -> (r: Vec<Vec<char>>)
    ensures
        views(r@) == split(s@, sep),
{
    let mut r: Vec<Vec<char>> = Vec::new();
    let mut start: usize = 0;
    let mut p: usize = 0;
    assert(s@.skip(0) =~= s@);
    assert(views(r@) + split(s@.skip(0), sep) =~= split(s@, sep));
    while p < s.len()
        invariant
            start <= p <= s.len(),
            forall|j: int| start <= j < p ==> s@[j] != sep,
            views(r@) + split(s@.skip(start as int), sep) == split(s@, sep),
        decreases s.len() - p,
    {
        if s[p] == sep {
            let field: Vec<char> = copy_range(s, start, p);
            proof {
                let rest = s@.skip(start as int);
                lemma_index_of_is(rest, sep, p - start);
                assert(rest.take(p - start) =~= s@.subrange(start as int, p as int));
                assert(rest.skip(p - start + 1) =~= s@.skip(p + 1));
                assert(views(r@.push(field)) =~= views(r@).push(field@));
                assert(views(r@).push(field@) + split(s@.skip(p + 1), sep) =~= views(r@) + split(
                    rest,
                    sep,
                ));
            }
            r.push(field);
            start = p + 1;
        }
        p += 1;
    }
    let field: Vec<char> = copy_range(s, start, s.len());
    proof {
        let rest = s@.skip(start as int);
        lemma_index_of_is(rest, sep, rest.len() as int);
        assert(rest =~= s@.subrange(start as int, s.len() as int));
        assert(views(r@.push(field)) =~= views(r@).push(field@));
        assert(views(r@).push(field@) =~= views(r@) + split(rest, sep));
    }
    r.push(field);
    r
}

/// The lines of `s`.
pub fn lines_of(s: &Vec<char>) -> (r: Vec<Vec<char>>)
    ensures
        views(r@) == lines(s@),
{
    let mut r: Vec<Vec<char>> = Vec::new();
    let mut start: usize = 0;
    let mut p: usize = 0;
    assert(s@.skip(0) =~= s@);
    assert(views(r@) + lines(s@.skip(0)) =~= lines(s@));
    while p < s.len()
        invariant
            start <= p <= s.len(),
            forall|j: int| start <= j < p ==> s@[j] != '\n',
            views(r@) + lines(s@.skip(start as int)) == lines(s@),
        decreases s.len() - p,
    {
        if s[p] == '\n' {
            let end: usize = if p > start && s[p - 1] == '\r' {
                p - 1
            } else {
                p
            };
            let line: Vec<char> = copy_range(s, start, end);
            proof {
                let rest = s@.skip(start as int);
                lemma_index_of_is(rest, '\n', p - start);
                assert(rest.take(p - start) =~= s@.subrange(start as int, p as int));
                assert(strip_cr(s@.subrange(start as int, p as int)) =~= line@);
                assert(rest.skip(p - start + 1) =~= s@.skip(p + 1));
                assert(views(r@.push(line)) =~= views(r@).push(line@));
                assert(views(r@).push(line@) + lines(s@.skip(p + 1)) =~= views(r@) + lines(rest));
            }
            r.push(line);
            start = p + 1;
        }
        p += 1;
    }
    if start < s.len() {
        let line: Vec<char> = copy_range(s, start, s.len());
        proof {
            let rest = s@.skip(start as int);
            lemma_index_of_is(rest, '\n', rest.len() as int);
            assert(rest =~= s@.subrange(start as int, s.len() as int));
            assert(views(r@.push(line)) =~= views(r@).push(line@));
            assert(views(r@).push(line@) =~= views(r@) + lines(rest));
        }
        r.push(line);
    } else {
        assert(views(r@) + lines(s@.skip(start as int)) =~= views(r@));
    }
    r
}

/// The words of `s`.
pub fn words_of(s: &Vec<char>) -> (r: Vec<Vec<char>>)
    ensures
        views(r@) == words(s@),
{
    let mut r: Vec<Vec<char>> = Vec::new();
    let mut p: usize = 0;
    assert(s@.skip(0) =~= s@);
    assert(views(r@) + words(s@.skip(0)) =~= words(s@));
    while p < s.len()
        invariant
            p <= s.len(),
            views(r@) + words(s@.skip(p as int)) == words(s@),
        decreases s.len() - p,
    {
        if char_is_space(s[p]) {
            assert(s@.skip(p as int).drop_first() =~= s@.skip(p + 1));
            p += 1;
        } else {
            let start: usize = p;
            let mut q: usize = p + 1;
            while q < s.len() && !char_is_space(s[q])
                invariant
                    start < q <= s.len(),
                    forall|j: int| start <= j < q ==> !is_space(s@[j]),
                decreases s.len() - q,
            {
                q += 1;
            }
            let word: Vec<char> = copy_range(s, start, q);
            proof {
                let rest = s@.skip(start as int);
                lemma_run_len_is(rest, q - start);
                assert(rest.take(q - start) =~= word@);
                assert(rest.skip(q - start) =~= s@.skip(q as int));
                assert(views(r@.push(word)) =~= views(r@).push(word@));
                assert(views(r@).push(word@) + words(s@.skip(q as int)) =~= views(r@) + words(
                    rest,
                ));
            }
            r.push(word);
            p = q;
        }
    }
    assert(views(r@) + words(s@.skip(p as int)) =~= views(r@));
    r
}

} // verus!
