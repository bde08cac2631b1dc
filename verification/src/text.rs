use vstd::prelude::*;
use vstd::string::{StrSliceExecFns, StringExecFns};

verus! {

/// Whether a character is white space: whether it has the property
/// White_Space of Unicode, which is these twenty-five characters.
pub open spec fn is_white_space(c: char) -> bool {
    ||| '\u{9}' <= c <= '\u{d}'
    ||| c == ' '
    ||| c == '\u{85}'
    ||| c == '\u{a0}'
    ||| c == '\u{1680}'
    ||| '\u{2000}' <= c <= '\u{200a}'
    ||| c == '\u{2028}'
    ||| c == '\u{2029}'
    ||| c == '\u{202f}'
    ||| c == '\u{205f}'
    ||| c == '\u{3000}'
}

/// `char::is_whitespace` of std: whether the character has the property
/// White_Space of Unicode. The claim is that std's table is the set that
/// [`is_white_space`] spells out.
#[verifier::external_body]
fn char_is_whitespace(c: char) -> (white: bool)
    ensures
        white == is_white_space(c),
{
    c.is_whitespace()
}

/// Whether a word starts at place `at` of a text: the character there is
/// no white space, and it is the first of the text or follows white space.
pub open spec fn starts_word(text: Seq<char>, at: int) -> bool {
    !is_white_space(text[at]) && (at == 0 || is_white_space(text[at - 1]))
}

/// The local estimate of what a text costs in tokens: the number of its
/// words, that is, of its longest runs of characters that are no white
/// space. Each such run starts once.
pub open spec fn token_estimate(text: Seq<char>) -> nat
    decreases text.len(),
{
    if text.len() == 0 {
        0
    } else {
        token_estimate(text.drop_last()) + if starts_word(text, text.len() - 1) {
            1nat
        } else {
            0nat
        }
    }
}

/// Computes [`token_estimate`].
pub fn estimate_tokens(text: &str) -> (n: usize)
    ensures
        n == token_estimate(text@),
{
    let total: usize = text.unicode_len();
    let mut words: usize = 0;
    let mut seen: usize = 0;
    let mut after_white = true;
    for c in it: text.chars()
        invariant
            it.seq() == text@,
            text@.len() == total,
            seen == it.index(),
            words == token_estimate(text@.take(seen as int)),
            words <= seen,
            after_white == (seen == 0 || is_white_space(text@[seen - 1])),
    {
        let ghost longer = text@.take(seen + 1);
        assert(longer.drop_last() == text@.take(seen as int));
        assert(starts_word(longer, seen as int) == starts_word(text@, seen as int));
        let white = char_is_whitespace(c);
        if !white && after_white {
            words = words + 1;
        }
        after_white = white;
        seen = seen + 1;
    }
    assert(text@.take(seen as int) == text@);
    words
}

/// The characters of a text, one by one.
pub fn chars_of(text: &str) -> (chars: Vec<char>)
    ensures
        chars@ == text@,
{
    let mut chars: Vec<char> = Vec::new();
    for c in it: text.chars()
        invariant
            it.seq() == text@,
            chars@ == text@.take(it.index() as int),
    {
        chars.push(c);
        assert(text@.take(it.index() + 1) == text@.take(it.index() as int).push(c));
    }
    assert(text@.take(text@.len() as int) == text@);
    chars
}

/// `s` without the occurrences of `pat`, found from the left and never
/// overlapping. An empty `pat` occurs nowhere.
pub open spec fn remove_all(s: Seq<char>, pat: Seq<char>) -> Seq<char>
    decreases s.len(),
{
    if pat.len() == 0 || s.len() < pat.len() {
        s
    } else if s.subrange(0, pat.len() as int) == pat {
        remove_all(s.subrange(pat.len() as int, s.len() as int), pat)
    } else {
        seq![s[0]] + remove_all(s.drop_first(), pat)
    }
}

/// Whether `pat` stands in `text` at `at`.
fn occurs_at(text: &Vec<char>, pat: &Vec<char>, at: usize) -> (found: bool)
    requires
        at + pat.len() <= text.len(),
    ensures
        found == (text@.subrange(at as int, at + pat.len()) == pat@),
{
    let mut k: usize = 0;
    while k < pat.len()
        invariant
            k <= pat.len(),
            at + pat.len() <= text.len(),
            text@.subrange(at as int, at + k) == pat@.take(k as int),
        decreases pat.len() - k,
    {
        if text[at + k] != pat[k] {
            assert(text@.subrange(at as int, at + pat.len())[k as int] != pat@[k as int]);
            return false;
        }
        assert(text@.subrange(at as int, at + k + 1) == text@.subrange(at as int, at + k).push(
            text@[at + k],
        ));
        assert(pat@.take(k + 1) == pat@.take(k as int).push(pat@[k as int]));
        k = k + 1;
    }
    assert(pat@.take(pat.len() as int) == pat@);
    true
}

/// Computes [`remove_all`].
pub fn strip_all(text: &str, pat: &str) -> (stripped: String)
    ensures
        stripped@ == remove_all(text@, pat@),
{
    let chars = chars_of(text);
    let unwanted = chars_of(pat);
    let n = chars.len();
    let m = unwanted.len();
    if m == 0 || n < m {
        return String::from_str(text);
    }
    let mut stripped = String::new();
    let mut kept_from: usize = 0;
    let mut i: usize = 0;
    proof {
        assert(text@.subrange(0, n as int) == text@);
        assert(stripped@ + text@.subrange(0, 0) + remove_all(text@.subrange(0, n as int), pat@)
            == remove_all(text@, pat@));
    }
    while i <= n - m
        invariant
            chars@ == text@,
            unwanted@ == pat@,
            n == chars.len(),
            m == unwanted.len(),
            0 < m <= n,
            kept_from <= i <= n,
            remove_all(text@, pat@) == stripped@ + text@.subrange(kept_from as int, i as int)
                + remove_all(text@.subrange(i as int, n as int), pat@),
        decreases n - i,
    {
        let ghost rest = text@.subrange(i as int, n as int);
        let ghost kept = text@.subrange(kept_from as int, i as int);
        assert(rest.subrange(0, m as int) == text@.subrange(i as int, i + m));
        if occurs_at(&chars, &unwanted, i) {
            stripped.append(text.substring_char(kept_from, i));
            proof {
                assert(rest.subrange(m as int, rest.len() as int) == text@.subrange(
                    i + m,
                    n as int,
                ));
                assert(text@.subrange(i + m, i + m) == Seq::<char>::empty());
                assert(stripped@ + text@.subrange(i + m, i + m) == stripped@);
            }
            i = i + m;
            kept_from = i;
        } else {
            proof {
                assert(rest.drop_first() == text@.subrange(i + 1, n as int));
                assert(kept + seq![rest[0]] == text@.subrange(kept_from as int, i + 1));
                assert(stripped@ + kept + (seq![rest[0]] + remove_all(rest.drop_first(), pat@))
                    == stripped@ + (kept + seq![rest[0]]) + remove_all(rest.drop_first(), pat@));
            }
            i = i + 1;
        }
    }
    stripped.append(text.substring_char(kept_from, n));
    proof {
        assert(text@.subrange(kept_from as int, i as int) + text@.subrange(i as int, n as int)
            == text@.subrange(kept_from as int, n as int));
    }
    stripped
}

/// To put `pat` in front of a text and then to remove `pat` everywhere
/// gives what removing it from the text alone gives.
pub proof fn lemma_remove_all_after_prefix(s: Seq<char>, pat: Seq<char>)
    ensures
        remove_all(pat + s, pat) == remove_all(s, pat),
{
    if pat.len() > 0 {
        let whole = pat + s;
        assert(whole.subrange(0, pat.len() as int) == pat);
        assert(whole.subrange(pat.len() as int, whole.len() as int) == s);
    } else {
        assert(pat + s == s);
    }
}

/// The character of a decimal digit.
pub open spec fn digit_char(d: nat) -> char {
    if d == 0 {
        '0'
    } else if d == 1 {
        '1'
    } else if d == 2 {
        '2'
    } else if d == 3 {
        '3'
    } else if d == 4 {
        '4'
    } else if d == 5 {
        '5'
    } else if d == 6 {
        '6'
    } else if d == 7 {
        '7'
    } else if d == 8 {
        '8'
    } else {
        '9'
    }
}

/// A natural number in decimal, without leading zeros.
pub open spec fn decimal(n: nat) -> Seq<char>
    decreases n,
{
    if n < 10 {
        seq![digit_char(n)]
    } else {
        decimal(n / 10).push(digit_char(n % 10))
    }
}

/// An integer in decimal, with a minus sign in front of a negative one.
pub open spec fn signed_decimal(i: int) -> Seq<char> {
    if i < 0 {
        seq!['-'] + decimal((-i) as nat)
    } else {
        decimal(i as nat)
    }
}

fn digit_str(d: u64) -> (s: &'static str)
    requires
        d < 10,
    ensures
        s@ == seq![digit_char(d as nat)],
{
    proof {
        reveal_strlit("0");
        reveal_strlit("1");
        reveal_strlit("2");
        reveal_strlit("3");
        reveal_strlit("4");
        reveal_strlit("5");
        reveal_strlit("6");
        reveal_strlit("7");
        reveal_strlit("8");
        reveal_strlit("9");
    }
    let s = if d == 0 {
        "0"
    } else if d == 1 {
        "1"
    } else if d == 2 {
        "2"
    } else if d == 3 {
        "3"
    } else if d == 4 {
        "4"
    } else if d == 5 {
        "5"
    } else if d == 6 {
        "6"
    } else if d == 7 {
        "7"
    } else if d == 8 {
        "8"
    } else {
        "9"
    };
    assert(s@ =~= seq![digit_char(d as nat)]);
    s
}

/// Appends [`decimal`] of `n` to `out`.
pub fn push_decimal(out: &mut String, n: u64)
    ensures
        final(out)@ == old(out)@ + decimal(n as nat),
    decreases n,
{
    if n >= 10 {
        push_decimal(out, n / 10);
    }
    out.append(digit_str(n % 10));
    proof {
        if n >= 10 {
            assert(old(out)@ + decimal((n / 10) as nat) + seq![digit_char((n % 10) as nat)]
                =~= old(out)@ + decimal(n as nat));
        }
    }
}

/// Appends [`signed_decimal`] of `i` to `out`.
pub fn push_signed_decimal(out: &mut String, i: i64)
    ensures
        final(out)@ == old(out)@ + signed_decimal(i as int),
{
    if i < 0 {
        proof {
            reveal_strlit("-");
        }
        out.append("-");
        assert(out@ =~= old(out)@ + seq!['-']);
        let magnitude: u64 = if i == i64::MIN {
            0x8000_0000_0000_0000
        } else {
            (-i) as u64
        };
        push_decimal(out, magnitude);
        assert(out@ =~= old(out)@ + signed_decimal(i as int));
    } else {
        push_decimal(out, i as u64);
    }
}

/// How many of the first marks are set, up to the first that is not.
pub open spec fn leading_run(marks: Seq<bool>) -> nat
    decreases marks.len(),
{
    if marks.len() > 0 && marks.first() {
        1 + leading_run(marks.drop_first())
    } else {
        0
    }
}

/// How many of the last marks are set, back to the last that is not.
pub open spec fn trailing_run(marks: Seq<bool>) -> nat
    decreases marks.len(),
{
    if marks.len() > 0 && marks.last() {
        1 + trailing_run(marks.drop_last())
    } else {
        0
    }
}

/// The places between the run of set marks at the start and the run at
/// the end: where the first run stops, and where the last one begins. The
/// run at the end is looked for behind the first, so the two never
/// overlap.
pub open spec fn between_runs(marks: Seq<bool>) -> (int, int) {
    let from = leading_run(marks) as int;
    (from, marks.len() - trailing_run(marks.skip(from)))
}

/// Computes [`between_runs`].
pub fn find_between_runs(marks: &Vec<bool>) -> (bounds: (usize, usize))
    ensures
        (bounds.0 as int, bounds.1 as int) == between_runs(marks@),
        bounds.0 <= bounds.1 <= marks.len(),
{
    let n = marks.len();
    let mut from: usize = 0;
    proof {
        assert(marks@.skip(0) == marks@);
    }
    while from < n && marks[from]
        invariant
            n == marks.len(),
            from <= n,
            leading_run(marks@) == from + leading_run(marks@.skip(from as int)),
        decreases n - from,
    {
        assert(marks@.skip(from as int).drop_first() == marks@.skip(from + 1));
        from = from + 1;
    }
    assert(leading_run(marks@) == from);
    let ghost rest = marks@.skip(from as int);
    let mut to: usize = n;
    proof {
        assert(rest.take(n - from) == rest);
    }
    while to > from && marks[to - 1]
        invariant
            n == marks.len(),
            from <= to <= n,
            rest == marks@.skip(from as int),
            trailing_run(rest) == (n - to) + trailing_run(rest.take(to - from)),
        decreases to,
    {
        assert(rest.take(to - from).last() == marks@[to - 1]);
        assert(rest.take(to - from).drop_last() == rest.take(to - from - 1));
        to = to - 1;
    }
    proof {
        if to > from {
            assert(rest.take(to - from).last() == marks@[to - 1]);
        } else {
            assert(rest.take(0).len() == 0);
        }
    }
    (from, to)
}

/// For each character of a text, whether it is white space.
pub open spec fn white_marks(text: Seq<char>) -> Seq<bool> {
    text.map_values(|c: char| is_white_space(c))
}

/// A text without the white space at either end.
pub open spec fn trimmed(text: Seq<char>) -> Seq<char> {
    let (from, to) = between_runs(white_marks(text));
    text.subrange(from, to)
}

/// Computes [`trimmed`].
pub fn trim(text: &str) -> (inner: String)
    ensures
        inner@ == trimmed(text@),
{
    let chars = chars_of(text);
    let mut marks: Vec<bool> = Vec::new();
    let mut i: usize = 0;
    while i < chars.len()
        invariant
            i <= chars.len(),
            chars@ == text@,
            marks@ == white_marks(text@).take(i as int),
        decreases chars.len() - i,
    {
        marks.push(char_is_whitespace(chars[i]));
        assert(marks@ =~= white_marks(text@).take(i + 1));
        i = i + 1;
    }
    assert(white_marks(text@).take(i as int) == white_marks(text@));
    let (from, to) = find_between_runs(&marks);
    String::from_str(text.substring_char(from, to))
}

} // verus!
