//! What the text functions of `text` mean, stated without their definitions:
//! white space is Unicode's `White_Space`, trimming cuts only white space,
//! the words are the maximal runs of non-space characters in order, and the
//! decimal rendering reads back as the number.
use vstd::prelude::*;
use crate::text::{
    contains_seq, decimal, digit_char, is_space, lemma_word_len_bounds, lemma_word_prefix_has_no_space, trim,
    trim_end, trim_start, word_len, words, zero_padded,
};

verus! {

/// Law of white space: a character is white space exactly when it has the
/// Unicode `White_Space` property (U+0009..U+000D, U+0020, U+0085, U+00A0,
/// U+1680, U+2000..U+200A, U+2028, U+2029, U+202F, U+205F, U+3000); in
/// particular no ASCII letter or digit is.
pub proof fn law_space_is_unicode_white_space(c: char)
    ensures
        is_space(c) <==> (c == '\u{9}' || c == '\u{a}' || c == '\u{b}' || c == '\u{c}' || c
            == '\u{d}' || c == ' ' || c == '\u{85}' || c == '\u{a0}' || c == '\u{1680}' || (
        '\u{2000}' <= c && c <= '\u{200a}') || c == '\u{2028}' || c == '\u{2029}' || c
            == '\u{202f}' || c == '\u{205f}' || c == '\u{3000}'),
        ('0' <= c && c <= '9') || ('a' <= c && c <= 'z') || ('A' <= c && c <= 'Z') ==> !is_space(c),
{
}

/// Where `trim_start` cuts: the characters before it are all white space.
pub proof fn lemma_trim_start_cut(s: Seq<char>) -> (a: int)
    ensures
        0 <= a <= s.len(),
        trim_start(s) == s.subrange(a, s.len() as int),
        forall|k: int| 0 <= k < a ==> is_space(#[trigger] s[k]),
    decreases s.len(),
{
    if s.len() > 0 && is_space(s[0]) {
        let t = s.drop_first();
        let a1 = lemma_trim_start_cut(t);
        assert(t.subrange(a1, t.len() as int) =~= s.subrange(a1 + 1, s.len() as int));
        assert forall|k: int| 0 <= k < a1 + 1 implies is_space(#[trigger] s[k]) by {
            if k > 0 {
                assert(s[k] == t[k - 1]);
            }
        }
        a1 + 1
    } else {
        assert(s.subrange(0, s.len() as int) =~= s);
        0
    }
}

/// Where `trim_end` cuts: the characters after it are all white space.
pub proof fn lemma_trim_end_cut(t: Seq<char>) -> (b: int)
    ensures
        0 <= b <= t.len(),
        trim_end(t) == t.subrange(0, b),
        forall|k: int| b <= k < t.len() ==> is_space(#[trigger] t[k]),
    decreases t.len(),
{
    if t.len() > 0 && is_space(t.last()) {
        let u = t.drop_last();
        let b1 = lemma_trim_end_cut(u);
        assert(u.subrange(0, b1) =~= t.subrange(0, b1));
        assert forall|k: int| b1 <= k < t.len() implies is_space(#[trigger] t[k]) by {
            if k < t.len() - 1 {
                assert(t[k] == u[k]);
            }
        }
        b1
    } else {
        assert(t.subrange(0, t.len() as int) =~= t);
        t.len() as int
    }
}

/// Law of trimming: the trimmed text is a contiguous piece of the text, and
/// everything cut off before and after it is white space; a text whose first
/// and last characters are not white space is its own trim.
pub proof fn law_trim_cuts_only_white_space(s: Seq<char>)
    ensures
        exists|i: int, j: int|
            #![trigger s.subrange(i, j)]
            0 <= i <= j <= s.len() && trim(s) == s.subrange(i, j) && (forall|k: int|
                0 <= k < i ==> is_space(#[trigger] s[k])) && (forall|k: int|
                j <= k < s.len() ==> is_space(#[trigger] s[k])),
        (s.len() == 0 || (!is_space(s[0]) && !is_space(s.last()))) ==> trim(s) == s,
{
    let a = lemma_trim_start_cut(s);
    let ts = s.subrange(a, s.len() as int);
    let b = lemma_trim_end_cut(ts);
    assert(ts.subrange(0, b) =~= s.subrange(a, a + b));
    assert forall|k: int| a + b <= k < s.len() implies is_space(#[trigger] s[k]) by {
        assert(s[k] == ts[k - a]);
    }
    assert(trim(s) == s.subrange(a, a + b));
}

/// The concatenation of a sequence of texts.
pub open spec fn concat_all(ws: Seq<Seq<char>>) -> Seq<char>
    decreases ws.len(),
{
    if ws.len() == 0 {
        Seq::empty()
    } else {
        ws[0] + concat_all(ws.drop_first())
    }
}

/// The characters of `s` that are not white space, in order.
pub open spec fn non_space_chars(s: Seq<char>) -> Seq<char>
    decreases s.len(),
{
    if s.len() == 0 {
        Seq::empty()
    } else if is_space(s[0]) {
        non_space_chars(s.drop_first())
    } else {
        seq![s[0]] + non_space_chars(s.drop_first())
    }
}

/// Whether `w` stands in `s` as a maximal run of non-space characters: a
/// non-empty piece of `s`, with no white space in it, preceded by the start of
/// `s` or white space and followed by the end of `s` or white space.
pub open spec fn is_maximal_run(s: Seq<char>, w: Seq<char>) -> bool {
    exists|a: int, b: int|
        #![trigger s.subrange(a, b)]
        0 <= a < b <= s.len() && w == s.subrange(a, b) && (a == 0 || is_space(s[a - 1])) && (b
            == s.len() || is_space(s[b])) && (forall|k: int| a <= k < b ==> !is_space(#[trigger] s[k]))
}

pub proof fn lemma_non_space_prefix(s: Seq<char>, m: int)
    requires
        0 <= m <= s.len(),
        forall|k: int| 0 <= k < m ==> !is_space(#[trigger] s[k]),
    ensures
        non_space_chars(s) == s.take(m) + non_space_chars(s.skip(m)),
    decreases m,
{
    if m == 0 {
        assert(s.skip(0) =~= s);
        assert(s.take(0) + non_space_chars(s) =~= non_space_chars(s));
    } else {
        let t = s.drop_first();
        assert forall|k: int| 0 <= k < m - 1 implies !is_space(#[trigger] t[k]) by {
            assert(t[k] == s[k + 1]);
        }
        lemma_non_space_prefix(t, m - 1);
        assert(seq![s[0]] + t.take(m - 1) =~= s.take(m));
        assert(t.skip(m - 1) =~= s.skip(m));
        assert(seq![s[0]] + (t.take(m - 1) + non_space_chars(t.skip(m - 1))) =~= s.take(m)
            + non_space_chars(s.skip(m)));
    }
}

pub proof fn lemma_word_len_stop(s: Seq<char>)
    ensures
        word_len(s) == s.len() || is_space(s[word_len(s) as int]),
    decreases s.len(),
{
    lemma_word_len_bounds(s);
    if s.len() > 0 && !is_space(s[0]) {
        let t = s.drop_first();
        lemma_word_len_stop(t);
        lemma_word_len_bounds(t);
        if word_len(t) < t.len() {
            assert(s[word_len(s) as int] == t[word_len(t) as int]);
        }
    }
}

/// Law of splitting, completeness and order: joining the words gives back the
/// non-space characters of the text, in order.
pub proof fn law_words_join_to_non_space(s: Seq<char>)
    ensures
        concat_all(words(s)) == non_space_chars(s),
    decreases s.len(),
{
    if s.len() == 0 {
    } else if is_space(s[0]) {
        law_words_join_to_non_space(s.drop_first());
    } else {
        lemma_word_len_bounds(s);
        lemma_word_prefix_has_no_space(s);
        let n = word_len(s) as int;
        let rest = s.skip(n);
        law_words_join_to_non_space(rest);
        let ws = words(s);
        assert(ws == seq![s.take(n)] + words(rest));
        assert(ws[0] == s.take(n));
        assert(ws.drop_first() =~= words(rest));
        lemma_non_space_prefix(s, n);
    }
}

pub proof fn lemma_run_shift(s: Seq<char>, n: int, w: Seq<char>)
    requires
        0 < n <= s.len(),
        is_maximal_run(s.skip(n), w),
        is_space(s[n - 1]) || n == s.len() || is_space(s[n]),
    ensures
        is_maximal_run(s, w),
{
    let rest = s.skip(n);
    let (a1, b1) = choose|a: int, b: int|
        #![trigger rest.subrange(a, b)]
        0 <= a < b <= rest.len() && w == rest.subrange(a, b) && (a == 0 || is_space(rest[a - 1]))
            && (b == rest.len() || is_space(rest[b])) && (forall|k: int|
            a <= k < b ==> !is_space(#[trigger] rest[k]));
    let a = a1 + n;
    let b = b1 + n;
    assert(rest.subrange(a1, b1) =~= s.subrange(a, b));
    if a1 == 0 {
        assert(!is_space(rest[0]));
        assert(rest[0] == s[n]);
    } else {
        assert(rest[a1 - 1] == s[a - 1]);
    }
    if b1 < rest.len() {
        assert(rest[b1] == s[b]);
    }
    assert forall|k: int| a <= k < b implies !is_space(#[trigger] s[k]) by {
        assert(s[k] == rest[k - n]);
    }
    assert(0 <= a < b <= s.len() && w == s.subrange(a, b) && (a == 0 || is_space(s[a - 1])) && (b
        == s.len() || is_space(s[b])) && (forall|k: int| a <= k < b ==> !is_space(#[trigger] s[k])));
}

/// Law of splitting, shape: every word is a maximal run of non-space
/// characters of the text (never part of one, never two joined).
pub proof fn law_words_are_maximal_runs(s: Seq<char>)
    ensures
        forall|i: int| 0 <= i < words(s).len() ==> is_maximal_run(s, #[trigger] words(s)[i]),
    decreases s.len(),
{
    if s.len() == 0 {
    } else if is_space(s[0]) {
        let rest = s.drop_first();
        law_words_are_maximal_runs(rest);
        assert(rest =~= s.skip(1));
        assert forall|i: int| 0 <= i < words(s).len() implies is_maximal_run(
            s,
            #[trigger] words(s)[i],
        ) by {
            lemma_run_shift(s, 1, words(rest)[i]);
        }
    } else {
        lemma_word_len_bounds(s);
        lemma_word_prefix_has_no_space(s);
        lemma_word_len_stop(s);
        let n = word_len(s) as int;
        let rest = s.skip(n);
        law_words_are_maximal_runs(rest);
        let ws = words(s);
        assert(ws == seq![s.take(n)] + words(rest));
        assert forall|i: int| 0 <= i < ws.len() implies is_maximal_run(s, #[trigger] ws[i]) by {
            if i == 0 {
                assert(s.take(n) =~= s.subrange(0, n));
                assert(ws[0] == s.subrange(0, n));
                assert(0 <= 0 < n <= s.len() && ws[0] == s.subrange(0, n) && (n == s.len()
                    || is_space(s[n])) && (forall|k: int| 0 <= k < n ==> !is_space(#[trigger] s[k])));
            } else {
                assert(ws[i] == words(rest)[i - 1]);
                lemma_run_shift(s, n, words(rest)[i - 1]);
            }
        }
    }
}

/// The number that a sequence of decimal digits stands for, read in base 10.
pub open spec fn numeral_value(s: Seq<char>) -> int
    decreases s.len(),
{
    if s.len() == 0 {
        0
    } else {
        numeral_value(s.drop_last()) * 10 + (s.last() as u32 - 48)
    }
}

/// Whether every character of `s` is one of `0`..`9`.
pub open spec fn all_digits(s: Seq<char>) -> bool {
    forall|k: int| 0 <= k < s.len() ==> '0' <= #[trigger] s[k] && s[k] <= '9'
}

/// Law of digits: the digit for `d < 10` is the character with code `48 + d`.
pub proof fn law_digit_char_code(d: nat)
    requires
        d < 10,
    ensures
        digit_char(d) as u32 == 48 + d,
{
}

/// Law of decimal rendering: the rendering of `n` is made of decimal digits,
/// reads back in base 10 as `n`, and starts with `0` only for `n == 0`.
pub proof fn law_decimal_reads_back(n: nat)
    ensures
        decimal(n).len() >= 1,
        all_digits(decimal(n)),
        numeral_value(decimal(n)) == n,
        decimal(n)[0] == '0' ==> n == 0,
    decreases n,
{
    let d = decimal(n);
    if n < 10 {
        law_digit_char_code(n);
        assert(d.drop_last() =~= Seq::<char>::empty());
        assert(numeral_value(d.drop_last()) == 0);
        assert(d.last() == digit_char(n));
        assert(numeral_value(d) == numeral_value(d.drop_last()) * 10 + (d.last() as u32 - 48));
    } else {
        law_decimal_reads_back(n / 10);
        law_digit_char_code(n % 10);
        assert(d.drop_last() =~= decimal(n / 10));
        assert(d.last() == digit_char(n % 10));
        assert(d[0] == decimal(n / 10)[0]);
        assert(numeral_value(d) == numeral_value(d.drop_last()) * 10 + (d.last() as u32 - 48));
        assert(n == (n / 10) * 10 + n % 10);
    }
}

pub proof fn lemma_leading_zero_value(t: Seq<char>)
    ensures
        numeral_value(seq!['0'] + t) == numeral_value(t),
    decreases t.len(),
{
    let z = seq!['0'] + t;
    if t.len() == 0 {
        assert(z.drop_last() =~= Seq::<char>::empty());
        assert(numeral_value(z.drop_last()) == 0);
        assert(z.last() == '0');
        assert(numeral_value(z) == numeral_value(z.drop_last()) * 10 + (z.last() as u32 - 48));
    } else {
        lemma_leading_zero_value(t.drop_last());
        assert(z.drop_last() =~= seq!['0'] + t.drop_last());
        assert(z.last() == t.last());
        assert(numeral_value(z) == numeral_value(z.drop_last()) * 10 + (z.last() as u32 - 48));
    }
}

pub proof fn lemma_zeros_value(k: nat, t: Seq<char>)
    ensures
        numeral_value(Seq::new(k, |i: int| '0') + t) == numeral_value(t),
    decreases k,
{
    if k > 0 {
        let rest = Seq::new((k - 1) as nat, |i: int| '0') + t;
        lemma_zeros_value((k - 1) as nat, t);
        lemma_leading_zero_value(rest);
        assert(Seq::new(k, |i: int| '0') + t =~= seq!['0'] + rest);
    } else {
        assert(Seq::new(k, |i: int| '0') + t =~= t);
    }
}

/// Law of zero padding: the padded rendering of `n` is made of decimal
/// digits, reads back as `n`, and is exactly `width` long unless `n` needs
/// more digits.
pub proof fn law_zero_padded_reads_back(n: nat, width: nat)
    ensures
        all_digits(zero_padded(n, width)),
        numeral_value(zero_padded(n, width)) == n,
        zero_padded(n, width).len() == if decimal(n).len() >= width {
            decimal(n).len()
        } else {
            width
        },
{
    law_decimal_reads_back(n);
    let d = decimal(n);
    if d.len() < width {
        let k = (width - d.len()) as nat;
        lemma_zeros_value(k, d);
        let z = Seq::new(k, |i: int| '0') + d;
        assert forall|j: int| 0 <= j < z.len() implies '0' <= #[trigger] z[j] && z[j] <= '9' by {
            if j >= k {
                assert(z[j] == d[j - k]);
            }
        }
    }
}

/// Law of substring search: a text contains every piece that stands in it,
/// and nothing longer than itself.
pub proof fn law_contains_pieces(a: Seq<char>, p: Seq<char>, b: Seq<char>, s: Seq<char>)
    ensures
        contains_seq(a + p + b, p),
        p.len() > s.len() ==> !contains_seq(s, p),
{
    let t = a + p + b;
    assert(t.subrange(a.len() as int, (a.len() + p.len()) as int) =~= p);
}

} // verus!
