//! Text helpers shared by the resolver and the engine: comparing tokens,
//! decimal numerals, and names without their quote characters.

use vstd::prelude::*;

verus! {

/// The character of a decimal digit `d < 10`.
pub open spec fn digit_char(d: nat) -> char {
    if d == 0 {
        '0'
    } else if d == 1 {
        '1'
    } else if d == 2 {
        '2'
    } else if d == 3 {
        '3'
    } else if d == 4 {
        '4'
    } else if d == 5 {
        '5'
    } else if d == 6 {
        '6'
    } else if d == 7 {
        '7'
    } else if d == 8 {
        '8'
    } else {
        '9'
    }
}

/// The decimal numeral of a natural number, without leading zeros.
pub open spec fn digits(n: nat) -> Seq<char>
    decreases n,
{
    if n < 10 {
        seq![digit_char(n)]
    } else {
        digits(n / 10).push(digit_char(n % 10))
    }
}

/// The decimal numeral of an integer: a minus sign before a negative one.
pub open spec fn decimal(v: int) -> Seq<char> {
    if v < 0 {
        seq!['-'] + digits((-v) as nat)
    } else {
        digits(v as nat)
    }
}

/// Whether two texts hold the same characters.
pub fn same_text(a: &str, b: &str) -> (r: bool)
    ensures
        r == (a@ == b@),
{
    let x = a.to_owned();
    let y = b.to_owned();
    x == y
}

/// The characters of a text, one by one.
pub fn chars_of(s: &str) -> (v: Vec<char>)
    ensures
        v@ == s@,
{
    let mut v: Vec<char> = Vec::new();
    for c in it: s.chars()
        invariant
            it.seq() == s@,
            v@ == it.seq().take(it.index() as int),
    {
        assert(it.seq().take(it.index() + 1) == it.seq().take(it.index() as int).push(c));
        v.push(c);
    }
    assert(s@.take(s@.len() as int) == s@);
    v
}

fn digit_text(d: u8) -> (s: &'static str)
    requires
        d < 10,
    ensures
        s@ == seq![digit_char(d as nat)],
{
    proof {
        reveal_strlit("0");
        reveal_strlit("1");
        reveal_strlit("2");
        reveal_strlit("3");
        reveal_strlit("4");
        reveal_strlit("5");
        reveal_strlit("6");
        reveal_strlit("7");
        reveal_strlit("8");
        reveal_strlit("9");
    }
    let s = if d == 0 {
        "0"
    } else if d == 1 {
        "1"
    } else if d == 2 {
        "2"
    } else if d == 3 {
        "3"
    } else if d == 4 {
        "4"
    } else if d == 5 {
        "5"
    } else if d == 6 {
        "6"
    } else if d == 7 {
        "7"
    } else if d == 8 {
        "8"
    } else {
        "9"
    };
    assert(s@ =~= seq![digit_char(d as nat)]);
    s
}

/// The decimal numeral of `n`.
pub fn natural_text(n: usize) -> (s: String)
    ensures
        s@ == digits(n as nat),
{
    let mut rest: usize = n / 10;
    let mut s = String::from_str(digit_text((n % 10) as u8));
    proof {
        assert(digits(n as nat) =~= if n < 10 { s@ } else { digits(rest as nat) + s@ });
    }
    while rest > 0
        invariant
            digits(n as nat) == if rest == 0 { s@ } else { digits(rest as nat) + s@ },
        decreases rest,
    {
        let d: u8 = (rest % 10) as u8;
        let next: usize = rest / 10;
        let head = String::from_str(digit_text(d));
        proof {
            assert(digits(rest as nat) =~= if rest < 10 {
                head@
            } else {
                digits(next as nat) + head@
            });
            assert((digits(next as nat) + head@) + s@ =~= digits(next as nat) + (head@ + s@));
        }
        s = head.concat(s.as_str());
        rest = next;
    }
    s
}

/// The decimal numeral of `v`.
pub fn integer_text(v: isize) -> (s: String)
    ensures
        s@ == decimal(v as int),
{
    if v >= 0 {
        natural_text(v as usize)
    } else {
        // -(v + 1) fits, and so does its successor as an unsigned number.
        let m: usize = ((-(v + 1)) as usize) + 1;
        proof {
            reveal_strlit("-");
        }
        let body = natural_text(m);
        let s = String::from_str("-").concat(body.as_str());
        assert(s@ =~= decimal(v as int));
        s
    }
}

/// Whether `c` is one of the two quote characters.
pub open spec fn is_quote(c: char) -> bool {
    c == '\'' || c == '"'
}

/// A name without its quote characters.
pub open spec fn unquoted(s: Seq<char>) -> Seq<char> {
    s.filter(|c: char| !is_quote(c))
}

/// The text `s` without its quote characters.
pub fn strip_quotes(s: &str) -> (out: String)
    ensures
        out@ == unquoted(s@),
{
    let chars = chars_of(s);
    let n: usize = chars.len();
    let mut out = String::new();
    let mut start: usize = 0;
    let mut i: usize = 0;
    let ghost keep = |c: char| !is_quote(c);
    while i < n
        invariant
            chars@ == s@,
            n == chars@.len(),
            start <= i <= n,
            keep == (|c: char| !is_quote(c)),
            out@ + s@.subrange(start as int, i as int) == s@.take(i as int).filter(keep),
        decreases n - i,
    {
        let c = chars[i];
        proof {
            assert(s@.take(i + 1).drop_last() == s@.take(i as int));
            assert(s@.take(i + 1).last() == c);
            reveal_with_fuel(Seq::filter, 2);
        }
        if c == '\'' || c == '"' {
            let piece = s.substring_char(start, i);
            out.append(piece);
            start = i + 1;
            assert(s@.subrange(start as int, start as int) =~= Seq::<char>::empty());
            assert(out@ + s@.subrange(start as int, start as int) =~= out@);
        } else {
            assert(s@.subrange(start as int, i + 1) =~= s@.subrange(start as int, i as int).push(
                c,
            ));
            assert(out@ + s@.subrange(start as int, i as int).push(c) =~= (out@ + s@.subrange(
                start as int,
                i as int,
            )).push(c));
        }
        i = i + 1;
    }
    let piece = s.substring_char(start, n);
    out.append(piece);
    assert(s@.take(n as int) == s@);
    out
}

/// Whether `c` is a decimal digit.
pub open spec fn is_digit(c: char) -> bool {
    '0' <= c && c <= '9'
}

/// Whether every character of `s` is a decimal digit.
pub open spec fn all_digits(s: Seq<char>) -> bool {
    forall|i: int| 0 <= i < s.len() ==> is_digit(#[trigger] s[i])
}

/// The number that a sequence of decimal digits denotes.
pub open spec fn number(s: Seq<char>) -> int
    decreases s.len(),
{
    if s.len() == 0 {
        0
    } else {
        number(s.drop_last()) * 10 + (s.last() as int - '0' as int)
    }
}

/// The value of an integer literal: an optional sign, `+` or `-`, then at
/// least one decimal digit, denoting a number that the value type holds.
/// Any other text is no literal.
pub open spec fn integer_literal(s: Seq<char>) -> Option<int> {
    let signed = s.len() > 0 && (s[0] == '-' || s[0] == '+');
    let body = if signed {
        s.drop_first()
    } else {
        s
    };
    let value = if signed && s[0] == '-' {
        -number(body)
    } else {
        number(body)
    };
    if body.len() > 0 && all_digits(body) && isize::MIN <= value <= isize::MAX {
        Some(value)
    } else {
        None
    }
}

/// A longer numeral denotes no smaller number than any of its prefixes.
proof fn lemma_number_grows(s: Seq<char>, k: int)
    requires
        all_digits(s),
        0 <= k <= s.len(),
    ensures
        0 <= number(s.take(k)) <= number(s),
    decreases s.len() - k,
{
    lemma_number_nonnegative(s.take(k));
    if k == s.len() {
        assert(s.take(k) == s);
    } else {
        lemma_number_grows(s, k + 1);
        assert(s.take(k + 1).drop_last() == s.take(k));
        assert(is_digit(s[k]));
        assert(s.take(k + 1).last() == s[k]);
    }
}

proof fn lemma_number_nonnegative(s: Seq<char>)
    requires
        all_digits(s),
    ensures
        0 <= number(s),
    decreases s.len(),
{
    if s.len() > 0 {
        assert(is_digit(s[s.len() - 1]));
        lemma_number_nonnegative(s.drop_last());
    }
}

/// Reads an integer literal.
pub fn parse_integer(s: &str) -> (r: Option<isize>)
    ensures
        match r {
            Some(v) => integer_literal(s@) == Some(v as int),
            None => integer_literal(s@) is None,
        },
{
    let chars = chars_of(s);
    let n: usize = chars.len();
    if n == 0 {
        return None;
    }
    let negative = chars[0] == '-';
    let first: usize = if chars[0] == '-' || chars[0] == '+' {
        1
    } else {
        0
    };
    if first == n {
        return None;
    }
    let ghost body = s@.subrange(first as int, n as int);
    let ghost signed = s@.len() > 0 && (s@[0] == '-' || s@[0] == '+');
    assert(body == if signed {
        s@.drop_first()
    } else {
        s@
    });
    let limit: i128 = isize::MAX as i128 + 1;
    let mut acc: i128 = 0;
    let mut i: usize = first;
    assert(body.take(0) =~= Seq::<char>::empty());
    while i < n
        invariant
            chars@ == s@,
            n == s@.len(),
            first <= i <= n,
            body == s@.subrange(first as int, n as int),
            signed == (s@.len() > 0 && (s@[0] == '-' || s@[0] == '+')),
            body == if signed {
                s@.drop_first()
            } else {
                s@
            },
            all_digits(body.take(i - first)),
            acc == number(body.take(i - first)),
            0 <= acc <= limit,
            limit == isize::MAX + 1,
        decreases n - i,
    {
        let c = chars[i];
        if c < '0' || c > '9' {
            assert(!is_digit(body[i - first]));
            return None;
        }
        let d: i128 = (c as u32 - '0' as u32) as i128;
        proof {
            let p = body.take(i - first + 1);
            assert(p.drop_last() == body.take(i - first));
            assert(p.last() == c);
            assert forall|j: int| 0 <= j < p.len() implies is_digit(#[trigger] p[j]) by {
                if j < p.len() - 1 {
                    assert(p[j] == body.take(i - first)[j]);
                }
            }
        }
        acc = acc * 10 + d;
        i = i + 1;
        if acc > limit {
            proof {
                if all_digits(body) {
                    lemma_number_grows(body, i - first);
                }
            }
            return None;
        }
    }
    assert(body.take(n - first) == body);
    let v: i128 = if negative {
        -acc
    } else {
        acc
    };
    if v < isize::MIN as i128 || v > isize::MAX as i128 {
        None
    } else {
        Some(v as isize)
    }
}

/// The tokens of one line, each as the characters it holds.
pub type Line = Seq<Seq<char>>;

/// The tokens of one line.
pub open spec fn words_of(line: Seq<String>) -> Line {
    Seq::new(line.len(), |i: int| line[i]@)
}

/// The words of a line with one space between neighbours.
pub open spec fn joined(words: Seq<Seq<char>>) -> Seq<char>
    decreases words.len(),
{
    if words.len() == 0 {
        Seq::empty()
    } else if words.len() == 1 {
        words[0]
    } else {
        joined(words.drop_last()) + seq![' '] + words.last()
    }
}

/// Joins the tokens of a line with single spaces.
pub fn join_words(line: &[String]) -> (out: String)
    ensures
        out@ == joined(words_of(line@)),
{
    let n: usize = line.len();
    let mut out = String::new();
    let mut i: usize = 0;
    proof {
        reveal_strlit(" ");
    }
    assert(words_of(line@).take(0) =~= Seq::<Seq<char>>::empty());
    while i < n
        invariant
            n == line@.len(),
            i <= n,
            " "@ == seq![' '],
            out@ == joined(words_of(line@).take(i as int)),
        decreases n - i,
    {
        proof {
            let w = words_of(line@).take(i + 1);
            assert(w.drop_last() == words_of(line@).take(i as int));
            assert(w.last() == line@[i as int]@);
            if i == 0 {
                assert(w[0] == line@[0]@);
                assert(Seq::<char>::empty() + line@[0]@ =~= line@[0]@);
            }
        }
        if i > 0 {
            out.append(" ");
        }
        out.append(line[i].as_str());
        i = i + 1;
    }
    assert(words_of(line@).take(n as int) == words_of(line@));
    out
}

} // verus!
