use vstd::prelude::*;
use vstd::std_specs::iter::IteratorSpec;

verus! {

/// The characters of a string, in order.
pub fn chars_of(s: &str) -> (chars: Vec<char>)
    ensures
        chars@ == s@,
{
    broadcast use vstd::string::axiom_spec_iter, vstd::string::next_postcondition;

    let mut chars: Vec<char> = Vec::new();
    let mut iter = s.chars();
    loop
        invariant
            chars@ + iter.remaining() == s@,
        ensures
            chars@ == s@,
        decreases s@.len() - chars@.len(),
    {
        match iter.next() {
            Some(c) => {
                proof {
                    assert(chars@.push(c) + iter.remaining() =~= s@);
                }
                chars.push(c);
            },
            None => {
                assert(chars@ =~= s@);
                break ;
            },
        }
    }
    chars
}


/// Whether a character is an ASCII decimal digit.
pub open spec fn is_ascii_digit(c: char) -> bool {
    '0' <= c && c <= '9'
}

/// The value of an ASCII decimal digit.
pub open spec fn digit_value(c: char) -> nat {
    (c as int - '0' as int) as nat
}

/// The value of a run of ASCII decimal digits, most significant first.
pub open spec fn digits_value(digits: Seq<char>) -> nat
    decreases digits.len(),
{
    if digits.len() == 0 {
        0
    } else {
        digits_value(digits.drop_last()) * 10 + digit_value(digits.last())
    }
}

/// Whether every character is an ASCII decimal digit.
pub open spec fn all_ascii_digits(s: Seq<char>) -> bool {
    forall|i: int| 0 <= i < s.len() ==> #[trigger] is_ascii_digit(s[i])
}

/// The number that text spells as an unsigned integer: an optional `+`, then one or more ASCII
/// decimal digits, and nothing else.
pub open spec fn unsigned_text_value(s: Seq<char>) -> Option<nat> {
    let digits = if s.len() > 0 && s[0] == '+' {
        s.drop_first()
    } else {
        s
    };
    if digits.len() > 0 && all_ascii_digits(digits) {
        Some(digits_value(digits))
    } else {
        None
    }
}

/// The `usize` that text spells, if it spells one that fits.
pub open spec fn usize_text_value(s: Seq<char>) -> Option<usize> {
    match unsigned_text_value(s) {
        Some(v) => if v <= usize::MAX {
            Some(v as usize)
        } else {
            None
        },
        None => None,
    }
}

/// A longer run of digits is worth at least as much as its prefix.
pub proof fn lemma_digits_value_prefix(digits: Seq<char>, i: int)
    requires
        0 <= i <= digits.len(),
        all_ascii_digits(digits),
    ensures
        digits_value(digits.take(i)) <= digits_value(digits),
    decreases digits.len() - i,
{
    if i < digits.len() {
        lemma_digits_value_prefix(digits, i + 1);
        assert(digits.take(i + 1).drop_last() =~= digits.take(i));
    } else {
        assert(digits.take(i) =~= digits);
    }
}

/// The value of the digits of `chars` from `start` to `end`, if they are all ASCII digits,
/// there is at least one, and the value fits in a `usize`.
pub fn digits_to_usize(chars: &Vec<char>, start: usize, end: usize) -> (value: Option<usize>)
    requires
        start <= end <= chars@.len(),
    ensures
        value == ({
            let digits = chars@.subrange(start as int, end as int);
            if digits.len() > 0 && all_ascii_digits(digits) && digits_value(digits) <= usize::MAX {
                Some(digits_value(digits) as usize)
            } else {
                None::<usize>
            }
        }),
{
    let ghost digits = chars@.subrange(start as int, end as int);
    if start == end {
        return None;
    }
    let mut value: usize = 0;
    let mut i: usize = start;
    while i < end
        invariant
            start <= i <= end <= chars@.len(),
            digits == chars@.subrange(start as int, end as int),
            all_ascii_digits(digits.take(i - start)),
            value == digits_value(digits.take(i - start)),
        decreases end - i,
    {
        let c = chars[i];
        assert(digits[i - start] == c);
        if !('0' <= c && c <= '9') {
            assert(!is_ascii_digit(digits[i - start]));
            return None;
        }
        let d = (c as u32 - '0' as u32) as usize;
        assert(digits.take(i - start + 1).drop_last() =~= digits.take(i - start));
        assert(digits_value(digits.take(i - start + 1)) == value * 10 + d);
        match value.checked_mul(10) {
            None => {
                proof {
                    assert(all_ascii_digits(digits.take(i - start + 1)));
                    if all_ascii_digits(digits) {
                        lemma_digits_value_prefix(digits, i - start + 1);
                    }
                }
                return None;
            },
            Some(tens) => match tens.checked_add(d) {
                None => {
                    proof {
                        assert(all_ascii_digits(digits.take(i - start + 1)));
                        if all_ascii_digits(digits) {
                            lemma_digits_value_prefix(digits, i - start + 1);
                        }
                    }
                    return None;
                },
                Some(next) => {
                    value = next;
                },
            },
        }
        i += 1;
        assert(all_ascii_digits(digits.take(i - start)));
    }
    assert(digits.take(i - start) =~= digits);
    Some(value)
}

/// Reads the characters from `start` to `end` as `str::parse::<usize>` reads text.
pub fn parse_usize_in(chars: &Vec<char>, start: usize, end: usize) -> (value: Option<usize>)
    requires
        start <= end <= chars@.len(),
    ensures
        value == usize_text_value(chars@.subrange(start as int, end as int)),
{
    let ghost text = chars@.subrange(start as int, end as int);
    let first: usize = if start < end && chars[start] == '+' {
        start + 1
    } else {
        start
    };
    assert(chars@.subrange(first as int, end as int) =~= (if text.len() > 0 && text[0] == '+' {
        text.drop_first()
    } else {
        text
    }));
    digits_to_usize(chars, first, end)
}

/// Reads text as `str::parse::<usize>` does: an optional `+`, then one or more ASCII decimal
/// digits whose value fits in a `usize`; anything else is refused.
pub fn parse_usize(s: &str) -> (value: Option<usize>)
    ensures
        value == usize_text_value(s@),
{
    let chars = chars_of(s);
    assert(chars@.subrange(0, chars@.len() as int) =~= s@);
    parse_usize_in(&chars, 0, chars.len())
}

/// The character of a decimal digit.
pub open spec fn digit_char(d: nat) -> char {
    ('0' as int + d) as char
}

/// A number in decimal, most significant digit first, with no leading zeros.
pub open spec fn decimal_text(n: nat) -> Seq<char>
    decreases n,
{
    if n < 10 {
        seq![digit_char(n)]
    } else {
        decimal_text(n / 10).push(digit_char(n % 10))
    }
}

/// The text of a decimal digit.
fn digit_str(d: usize) -> (text: &'static str)
    requires
        d < 10,
    ensures
        text@ == seq![digit_char(d as nat)],
{
    proof {
        reveal_strlit("0");
        reveal_strlit("1");
        reveal_strlit("2");
        reveal_strlit("3");
        reveal_strlit("4");
        reveal_strlit("5");
        reveal_strlit("6");
        reveal_strlit("7");
        reveal_strlit("8");
        reveal_strlit("9");
    }
    match d {
        0 => "0",
        1 => "1",
        2 => "2",
        3 => "3",
        4 => "4",
        5 => "5",
        6 => "6",
        7 => "7",
        8 => "8",
        _ => "9",
    }
}

/// Appends a number in decimal.
pub fn append_decimal(text: &mut String, n: usize)
    ensures
        final(text)@ == old(text)@ + decimal_text(n as nat),
    decreases n,
{
    if n >= 10 {
        append_decimal(text, n / 10);
    }
    text.append(digit_str(n % 10));
    proof {
        if n >= 10 {
            assert(old(text)@ + decimal_text((n / 10) as nat) + seq![digit_char((n % 10) as nat)]
                =~= old(text)@ + decimal_text(n as nat));
        } else {
            assert(old(text)@ + seq![digit_char(n as nat)] =~= old(text)@ + decimal_text(n as nat));
        }
    }
}

/// A number in decimal.
pub fn usize_to_text(n: usize) -> (text: String)
    ensures
        text@ == decimal_text(n as nat),
{
    let mut text = String::new();
    append_decimal(&mut text, n);
    assert(Seq::<char>::empty() + decimal_text(n as nat) =~= decimal_text(n as nat));
    text
}


/// Whether a character is white space, as Unicode's White_Space property has it.
pub open spec fn is_white_space(c: char) -> bool {
    ||| '\u{9}' <= c && c <= '\u{d}'
    ||| c == ' '
    ||| c == '\u{85}'
    ||| c == '\u{a0}'
    ||| c == '\u{1680}'
    ||| '\u{2000}' <= c && c <= '\u{200a}'
    ||| c == '\u{2028}'
    ||| c == '\u{2029}'
    ||| c == '\u{202f}'
    ||| c == '\u{205f}'
    ||| c == '\u{3000}'
}

/// Whether a character is white space.
pub fn white_space(c: char) -> (w: bool)
    ensures
        w == is_white_space(c),
{
    ('\u{9}' <= c && c <= '\u{d}') || c == ' ' || c == '\u{85}' || c == '\u{a0}' || c
        == '\u{1680}' || ('\u{2000}' <= c && c <= '\u{200a}') || c == '\u{2028}' || c
        == '\u{2029}' || c == '\u{202f}' || c == '\u{205f}' || c == '\u{3000}'
}

/// The lines of the first `n` characters, as (start, end) positions: the text split at each
/// newline, the newlines dropped; there is always at least one line.
pub open spec fn line_spans(s: Seq<char>, n: int) -> Seq<(int, int)>
    decreases n,
{
    if n <= 0 {
        seq![(0int, 0int)]
    } else {
        let rest = line_spans(s, n - 1);
        if s[n - 1] == '\n' {
            rest.push((n, n))
        } else {
            rest.update(rest.len() - 1, (rest.last().0, n))
        }
    }
}

/// The white-space separated words between `from` and `to`, as (start, end) positions, in
/// order.
pub open spec fn token_spans(s: Seq<char>, from: int, to: int) -> Seq<(int, int)>
    decreases to - from,
{
    if to <= from {
        seq![]
    } else {
        let rest = token_spans(s, from, to - 1);
        if is_white_space(s[to - 1]) {
            rest
        } else if to - 1 > from && !is_white_space(s[to - 2]) {
            rest.update(rest.len() - 1, (rest.last().0, to))
        } else {
            rest.push((to - 1, to))
        }
    }
}

/// Spans as mathematical pairs.
pub open spec fn span_view(spans: Seq<(usize, usize)>) -> Seq<(int, int)> {
    spans.map_values(|span: (usize, usize)| (span.0 as int, span.1 as int))
}

/// Line spans never are empty, and the last one ends where the text read so far ends.
pub proof fn lemma_line_spans_shape(s: Seq<char>, n: int)
    requires
        0 <= n <= s.len(),
    ensures
        line_spans(s, n).len() >= 1,
        line_spans(s, n).last().1 == n,
        line_spans(s, n).last().0 <= n,
        forall|k: int| 0 <= k < line_spans(s, n).len() ==> 0 <= #[trigger] line_spans(s, n)[k].0
            <= line_spans(s, n)[k].1 <= n,
    decreases n,
{
    if n > 0 {
        lemma_line_spans_shape(s, n - 1);
    }
}

/// The lines of a text, split at each newline, as (start, end) positions.
pub fn split_lines(chars: &Vec<char>) -> (spans: Vec<(usize, usize)>)
    ensures
        span_view(spans@) == line_spans(chars@, chars@.len() as int),
{
    let mut spans: Vec<(usize, usize)> = Vec::new();
    let mut start: usize = 0;
    let mut i: usize = 0;
    while i < chars.len()
        invariant
            start <= i <= chars@.len(),
            span_view(spans@).push((start as int, i as int)) == line_spans(chars@, i as int),
        decreases chars.len() - i,
    {
        let ghost before = span_view(spans@);
        let ghost old_start = start;
        if chars[i] == '\n' {
            spans.push((start, i));
            start = i + 1;
            assert(span_view(spans@) =~= before.push((old_start as int, i as int)));
        }
        i += 1;
        proof {
            let rest = line_spans(chars@, i - 1);
            if chars@[i - 1] == '\n' {
                assert(span_view(spans@).push((start as int, i as int)) =~= rest.push((i as int, i as int)));
            } else {
                assert(span_view(spans@).push((start as int, i as int)) =~= rest.update(
                    rest.len() - 1,
                    (rest.last().0, i as int),
                ));
            }
        }
    }
    spans.push((start, i));
    assert(span_view(spans@) =~= line_spans(chars@, chars@.len() as int));
    spans
}

/// Word spans lie between `from` and `to`, in order, and each is a non-empty run of
/// characters that are not white space.
pub proof fn lemma_token_spans_shape(s: Seq<char>, from: int, to: int)
    requires
        0 <= from,
        to <= s.len(),
    ensures
        forall|k: int| 0 <= k < token_spans(s, from, to).len() ==> from <= #[trigger] token_spans(s, from, to)[k].0
            < token_spans(s, from, to)[k].1 <= to,
        from < to && !is_white_space(s[to - 1]) ==> token_spans(s, from, to).len() > 0
            && token_spans(s, from, to).last().1 == to,
    decreases to - from,
{
    if to > from {
        lemma_token_spans_shape(s, from, to - 1);
        let rest = token_spans(s, from, to - 1);
        let spans = token_spans(s, from, to);
        assert forall|k: int| 0 <= k < spans.len() implies from <= #[trigger] spans[k].0
            < spans[k].1 <= to by {
            if k < rest.len() {
                assert(from <= rest[k].0 < rest[k].1 <= to - 1);
            }
        }
    }
}

/// The white-space separated words between `from` and `to`, as (start, end) positions.
pub fn split_whitespace(chars: &Vec<char>, from: usize, to: usize) -> (spans: Vec<(usize, usize)>)
    requires
        from <= to <= chars@.len(),
    ensures
        span_view(spans@) == token_spans(chars@, from as int, to as int),
{
    let mut spans: Vec<(usize, usize)> = Vec::new();
    let mut in_word = false;
    let mut start: usize = from;
    let mut i: usize = from;
    while i < to
        invariant
            from <= start <= i <= to <= chars@.len(),
            in_word ==> i > from && !is_white_space(chars@[i - 1]) && start < i,
            !in_word ==> (i == from || is_white_space(chars@[i - 1])),
            in_word ==> span_view(spans@).push((start as int, i as int)) == token_spans(
                chars@,
                from as int,
                i as int,
            ),
            !in_word ==> span_view(spans@) == token_spans(chars@, from as int, i as int),
        decreases to - i,
    {
        let ghost before = span_view(spans@);
        let c = chars[i];
        if white_space(c) {
            if in_word {
                spans.push((start, i));
                in_word = false;
                assert(span_view(spans@) =~= before.push((start as int, i as int)));
            }
        } else {
            if !in_word {
                start = i;
                in_word = true;
            }
        }
        i += 1;
        proof {
            let rest = token_spans(chars@, from as int, i - 1);
            if !is_white_space(chars@[i - 1]) && i - 1 > from && !is_white_space(chars@[i - 2]) {
                assert(span_view(spans@).push((start as int, i as int)) =~= rest.update(
                    rest.len() - 1,
                    (rest.last().0, i as int),
                ));
            } else if !is_white_space(chars@[i - 1]) {
                assert(span_view(spans@).push((start as int, i as int)) =~= rest.push(
                    (i - 1, i as int),
                ));
            }
        }
    }
    if in_word {
        spans.push((start, i));
    }
    spans
}


/// The decimal text of a number is ASCII digits worth that number.
pub proof fn lemma_decimal_text_digits(n: nat)
    ensures
        decimal_text(n).len() > 0,
        all_ascii_digits(decimal_text(n)),
        digits_value(decimal_text(n)) == n,
    decreases n,
{
    let d = n % 10;
    assert(digit_value(digit_char(d)) == d);
    assert(decimal_text(n).last() == digit_char(d));
    if n < 10 {
        assert(n % 10 == n);
        assert(decimal_text(n).drop_last() =~= Seq::<char>::empty());
        assert(digits_value(decimal_text(n)) == digits_value(Seq::<char>::empty()) * 10 + d);
    } else {
        lemma_decimal_text_digits(n / 10);
        let t = decimal_text(n);
        assert(t.drop_last() =~= decimal_text(n / 10));
        assert(digits_value(t) == digits_value(decimal_text(n / 10)) * 10 + d);
        assert(n == (n / 10) * 10 + n % 10) by (nonlinear_arith);
        assert forall|i: int| 0 <= i < t.len() implies #[trigger] is_ascii_digit(t[i]) by {
            if i < t.len() - 1 {
                assert(t[i] == decimal_text(n / 10)[i]);
            }
        }
    }
}

/// Reading back the decimal text of a number gives the number.
pub proof fn lemma_decimal_text_reads_back(n: nat)
    ensures
        unsigned_text_value(decimal_text(n)) == Some(n),
{
    lemma_decimal_text_digits(n);
    assert(is_ascii_digit(decimal_text(n)[0]));
}


/// The `u32` that text spells, if it spells one that fits.
pub open spec fn u32_text_value(s: Seq<char>) -> Option<u32> {
    match unsigned_text_value(s) {
        Some(v) => if v <= u32::MAX {
            Some(v as u32)
        } else {
            None
        },
        None => None,
    }
}

/// Reads text as `str::parse::<u32>` does.
pub fn parse_u32(s: &str) -> (value: Option<u32>)
    ensures
        value == u32_text_value(s@),
{
    match parse_usize(s) {
        Some(v) => if v <= 0xffff_ffffusize {
            Some(v as u32)
        } else {
            None
        },
        None => None,
    }
}

/// Whether two texts are the same.
pub fn same_text(a: &str, b: &str) -> (same: bool)
    ensures
        same == (a@ == b@),
{
    let a_chars = chars_of(a);
    let b_chars = chars_of(b);
    if a_chars.len() != b_chars.len() {
        return false;
    }
    let mut i: usize = 0;
    while i < a_chars.len()
        invariant
            a_chars@ == a@,
            b_chars@ == b@,
            a@.len() == b@.len(),
            i <= a@.len(),
            forall|j: int| 0 <= j < i ==> a@[j] == b@[j],
        decreases a_chars.len() - i,
    {
        if a_chars[i] != b_chars[i] {
            return false;
        }
        i += 1;
    }
    assert(a@ =~= b@);
    true
}

} // verus!
