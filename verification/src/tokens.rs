//! Splitting program text into token lines.

use vstd::prelude::*;
use crate::text::{chars_of, strip_quotes, unquoted, words_of, Line};

verus! {

/// Whether `c` is white space.
pub open spec fn is_whitespace(c: char) -> bool {
    c == ' ' || ('\u{9}' <= c && c <= '\u{d}') || c == '\u{85}' || c == '\u{a0}' || c
        == '\u{1680}' || ('\u{2000}' <= c && c <= '\u{200a}') || c == '\u{2028}' || c
        == '\u{2029}' || c == '\u{202f}' || c == '\u{205f}' || c == '\u{3000}'
}

/// Whether `c` ends a line.
pub open spec fn is_newline(c: char) -> bool {
    c == '\n'
}

/// The pieces of `s` between the characters that `separates` holds of. There
/// is one piece more than there are separators; a piece may be empty.
pub open spec fn split_on(s: Seq<char>, separates: spec_fn(char) -> bool) -> Seq<Seq<char>>
    decreases s.len(),
{
    if s.len() == 0 {
        seq![Seq::empty()]
    } else {
        let before = split_on(s.drop_last(), separates);
        if separates(s.last()) {
            before.push(Seq::empty())
        } else {
            before.update(before.len() - 1, before.last().push(s.last()))
        }
    }
}

/// The tokens among `pieces`: each piece without its quote characters, the
/// empty ones dropped.
pub open spec fn tokens_among(pieces: Seq<Seq<char>>) -> Line {
    pieces.map_values(|p: Seq<char>| unquoted(p)).filter(|t: Seq<char>| t.len() > 0)
}

/// The tokens of one line of text: its pieces between white space, without
/// quote characters, the empty ones dropped.
pub open spec fn tokens_of(line: Seq<char>) -> Line {
    tokens_among(split_on(line, |c: char| is_whitespace(c)))
}

/// The token lines among `lines`: the tokens of each, the empty lines dropped.
pub open spec fn lines_among(lines: Seq<Seq<char>>) -> Seq<Line> {
    lines.map_values(|l: Seq<char>| tokens_of(l)).filter(|l: Line| l.len() > 0)
}

/// The token lines of a program text.
pub open spec fn token_lines(text: Seq<char>) -> Seq<Line> {
    lines_among(split_on(text, |c: char| is_newline(c)))
}

/// Splitting yields at least one piece.
pub proof fn lemma_split_nonempty(s: Seq<char>, separates: spec_fn(char) -> bool)
    ensures
        split_on(s, separates).len() >= 1,
    decreases s.len(),
{
    if s.len() > 0 {
        lemma_split_nonempty(s.drop_last(), separates);
    }
}

proof fn lemma_tokens_among_push(pieces: Seq<Seq<char>>, p: Seq<char>)
    ensures
        tokens_among(pieces.push(p)) == if unquoted(p).len() > 0 {
            tokens_among(pieces).push(unquoted(p))
        } else {
            tokens_among(pieces)
        },
{
    let f = |p: Seq<char>| unquoted(p);
    let keep = |t: Seq<char>| t.len() > 0;
    assert(pieces.push(p).map_values(f) =~= pieces.map_values(f).push(unquoted(p)));
    pieces.map_values(f).lemma_filter_push(unquoted(p), keep);
}

proof fn lemma_lines_among_push(lines: Seq<Seq<char>>, l: Seq<char>)
    ensures
        lines_among(lines.push(l)) == if tokens_of(l).len() > 0 {
            lines_among(lines).push(tokens_of(l))
        } else {
            lines_among(lines)
        },
{
    let f = |l: Seq<char>| tokens_of(l);
    let keep = |l: Line| l.len() > 0;
    assert(lines.push(l).map_values(f) =~= lines.map_values(f).push(tokens_of(l)));
    lines.map_values(f).lemma_filter_push(tokens_of(l), keep);
}

/// Whether `c` is white space.
pub fn whitespace(c: char) -> (b: bool)
    ensures
        b == is_whitespace(c),
{
    c == ' ' || ('\u{9}' <= c && c <= '\u{d}') || c == '\u{85}' || c == '\u{a0}' || c
        == '\u{1680}' || ('\u{2000}' <= c && c <= '\u{200a}') || c == '\u{2028}' || c
        == '\u{2029}' || c == '\u{202f}' || c == '\u{205f}' || c == '\u{3000}'
}

fn push_token(out: &mut Vec<String>, text: &str, from: usize, to: usize)
    requires
        from <= to <= text@.len(),
    ensures
        words_of(final(out)@) == if unquoted(text@.subrange(from as int, to as int)).len() > 0 {
            words_of(old(out)@).push(unquoted(text@.subrange(from as int, to as int)))
        } else {
            words_of(old(out)@)
        },
{
    if from < to {
        let token = strip_quotes(text.substring_char(from, to));
        if !token.as_str().is_empty() {
            out.push(token);
            assert(words_of(out@) =~= words_of(old(out)@).push(token@));
        }
    } else {
        assert(text@.subrange(from as int, to as int) =~= Seq::<char>::empty());
        assert(unquoted(Seq::<char>::empty()) =~= Seq::<char>::empty());
    }
}

/// The tokens of the part of `text` from `lo` up to `hi`.
fn tokens_between(text: &str, chars: &Vec<char>, lo: usize, hi: usize) -> (out: Vec<String>)
    requires
        chars@ == text@,
        lo <= hi <= text@.len(),
    ensures
        words_of(out@) == tokens_of(text@.subrange(lo as int, hi as int)),
{
    let ghost ws = |c: char| is_whitespace(c);
    let mut out: Vec<String> = Vec::new();
    let mut start: usize = lo;
    let mut i: usize = lo;
    proof {
        assert(text@.subrange(lo as int, lo as int) =~= Seq::<char>::empty());
        assert(split_on(text@.subrange(lo as int, lo as int), ws) =~= seq![Seq::<char>::empty()]);
        assert(split_on(text@.subrange(lo as int, lo as int), ws).drop_last() =~= Seq::<
            Seq<char>,
        >::empty());
        assert(words_of(out@) =~= tokens_among(Seq::<Seq<char>>::empty()));
    }
    while i < hi
        invariant
            chars@ == text@,
            lo <= start <= i <= hi <= text@.len(),
            ws == (|c: char| is_whitespace(c)),
            split_on(text@.subrange(lo as int, i as int), ws).len() >= 1,
            words_of(out@) == tokens_among(
                split_on(text@.subrange(lo as int, i as int), ws).drop_last(),
            ),
            split_on(text@.subrange(lo as int, i as int), ws).last() == text@.subrange(
                start as int,
                i as int,
            ),
        decreases hi - i,
    {
        let c = chars[i];
        let ghost before = split_on(text@.subrange(lo as int, i as int), ws);
        proof {
            let next = text@.subrange(lo as int, i + 1);
            assert(next.drop_last() == text@.subrange(lo as int, i as int));
            assert(next.last() == c);
            lemma_split_nonempty(next, ws);
        }
        if whitespace(c) {
            push_token(&mut out, text, start, i);
            start = i + 1;
            proof {
                let after = split_on(text@.subrange(lo as int, i + 1), ws);
                assert(after == before.push(Seq::<char>::empty()));
                assert(after.drop_last() == before);
                assert(before == before.drop_last().push(before.last()));
                lemma_tokens_among_push(before.drop_last(), before.last());
                assert(text@.subrange(start as int, i + 1) =~= Seq::<char>::empty());
            }
        } else {
            proof {
                let after = split_on(text@.subrange(lo as int, i + 1), ws);
                assert(after == before.update(before.len() - 1, before.last().push(c)));
                assert(after.drop_last() =~= before.drop_last());
                assert(text@.subrange(start as int, i + 1) =~= text@.subrange(
                    start as int,
                    i as int,
                ).push(c));
            }
        }
        i = i + 1;
    }
    proof {
        let all = split_on(text@.subrange(lo as int, hi as int), ws);
        assert(all == all.drop_last().push(all.last()));
        lemma_tokens_among_push(all.drop_last(), all.last());
    }
    push_token(&mut out, text, start, hi);
    out
}

/// Splits program text into token lines: the lines are the pieces between
/// newlines, the tokens of a line are its pieces between white space without
/// their quote characters; empty tokens and empty lines are dropped.
pub fn tokenize(text: &str) -> (code: Vec<Vec<String>>)
    ensures
        Seq::new(code@.len(), |i: int| words_of(code@[i]@)) == token_lines(text@),
{
    let ghost nl = |c: char| is_newline(c);
    let chars = chars_of(text);
    let n: usize = chars.len();
    let mut code: Vec<Vec<String>> = Vec::new();
    let mut start: usize = 0;
    let mut i: usize = 0;
    proof {
        assert(text@.take(0) =~= Seq::<char>::empty());
        assert(split_on(text@.take(0), nl) =~= seq![Seq::<char>::empty()]);
        assert(split_on(text@.take(0), nl).drop_last() =~= Seq::<Seq<char>>::empty());
        assert(Seq::new(code@.len(), |i: int| words_of(code@[i]@)) =~= lines_among(
            Seq::<Seq<char>>::empty(),
        ));
        assert(text@.subrange(0, 0) =~= Seq::<char>::empty());
    }
    while i < n
        invariant
            chars@ == text@,
            n == text@.len(),
            start <= i <= n,
            nl == (|c: char| is_newline(c)),
            split_on(text@.take(i as int), nl).len() >= 1,
            Seq::new(code@.len(), |i: int| words_of(code@[i]@)) == lines_among(
                split_on(text@.take(i as int), nl).drop_last(),
            ),
            split_on(text@.take(i as int), nl).last() == text@.subrange(start as int, i as int),
        decreases n - i,
    {
        let c = chars[i];
        let ghost before = split_on(text@.take(i as int), nl);
        let ghost lines = Seq::new(code@.len(), |i: int| words_of(code@[i]@));
        proof {
            let next = text@.take(i + 1);
            assert(next.drop_last() == text@.take(i as int));
            assert(next.last() == c);
            lemma_split_nonempty(next, nl);
        }
        if c == '\n' {
            let line = tokens_between(text, &chars, start, i);
            if line.len() > 0 {
                code.push(line);
                assert(Seq::new(code@.len(), |i: int| words_of(code@[i]@)) =~= lines.push(
                    words_of(line@),
                ));
            }
            start = i + 1;
            proof {
                let after = split_on(text@.take(i + 1), nl);
                assert(after == before.push(Seq::<char>::empty()));
                assert(after.drop_last() == before);
                assert(before == before.drop_last().push(before.last()));
                lemma_lines_among_push(before.drop_last(), before.last());
                assert(text@.subrange(start as int, i + 1) =~= Seq::<char>::empty());
            }
        } else {
            proof {
                let after = split_on(text@.take(i + 1), nl);
                assert(after == before.update(before.len() - 1, before.last().push(c)));
                assert(after.drop_last() =~= before.drop_last());
                assert(text@.subrange(start as int, i + 1) =~= text@.subrange(
                    start as int,
                    i as int,
                ).push(c));
            }
        }
        i = i + 1;
    }
    let ghost lines = Seq::new(code@.len(), |i: int| words_of(code@[i]@));
    proof {
        assert(text@.take(n as int) == text@);
        let all = split_on(text@, nl);
        assert(all == all.drop_last().push(all.last()));
        lemma_lines_among_push(all.drop_last(), all.last());
    }
    let line = tokens_between(text, &chars, start, n);
    if line.len() > 0 {
        code.push(line);
        assert(Seq::new(code@.len(), |i: int| words_of(code@[i]@)) =~= lines.push(
            words_of(line@),
        ));
    }
    code
}

} // verus!
