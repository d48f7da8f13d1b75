//! Characters and strings: the text rules that names, headers and settings are read by.

use vstd::prelude::*;
use vstd::string::*;

use crate::external::string_from_chars;

verus! {

/// The Unicode property `White_Space`.
pub open spec fn is_space(c: char) -> bool {
    ||| '\u{9}' <= c <= '\u{d}'
    ||| c == ' '
    ||| c == '\u{85}'
    ||| c == '\u{a0}'
    ||| c == '\u{1680}'
    ||| '\u{2000}' <= c <= '\u{200a}'
    ||| c == '\u{2028}'
    ||| c == '\u{2029}'
    ||| c == '\u{202f}'
    ||| c == '\u{205f}'
    ||| c == '\u{3000}'
}

/// The Unicode general category `Cc`.
pub open spec fn is_control_char(c: char) -> bool {
    c <= '\u{1f}' || '\u{7f}' <= c <= '\u{9f}'
}

/// The ASCII lowercase form of a character; every other character stands for itself.
pub open spec fn lower_char(c: char) -> char {
    if 'A' <= c <= 'Z' {
        ((c as u8 + 32) as u8) as char
    } else {
        c
    }
}

/// A text with its ASCII letters in lowercase.
pub open spec fn lower(s: Seq<char>) -> Seq<char> {
    s.map_values(|c: char| lower_char(c))
}

/// How many characters at the start are white space (`space`), or are not (`!space`).
pub open spec fn leading(s: Seq<char>, space: bool) -> nat
    decreases s.len(),
{
    if s.len() > 0 && is_space(s[0]) == space {
        1 + leading(s.drop_first(), space)
    } else {
        0
    }
}

/// A text without the white space at its end.
pub open spec fn trim_end(s: Seq<char>) -> Seq<char>
    decreases s.len(),
{
    if s.len() > 0 && is_space(s.last()) {
        trim_end(s.drop_last())
    } else {
        s
    }
}

/// A text without the white space at its start and end.
pub open spec fn trimmed(s: Seq<char>) -> Seq<char> {
    trim_end(s.skip(leading(s, true) as int))
}

/// A text without the occurrences of `c` at its end.
pub open spec fn without_trailing(s: Seq<char>, c: char) -> Seq<char>
    decreases s.len(),
{
    if s.len() > 0 && s.last() == c {
        without_trailing(s.drop_last(), c)
    } else {
        s
    }
}

/// The position of the first `c`, or the length where there is none.
pub open spec fn first_of(s: Seq<char>, c: char) -> nat
    decreases s.len(),
{
    if s.len() == 0 || s[0] == c {
        0
    } else {
        1 + first_of(s.drop_first(), c)
    }
}

/// The text before the first `c` and the text after it.
pub open spec fn split_at_first(s: Seq<char>, c: char) -> Option<(Seq<char>, Seq<char>)> {
    if s.contains(c) {
        Some((s.take(first_of(s, c) as int), s.skip(first_of(s, c) as int + 1)))
    } else {
        None
    }
}

/// A line without the carriage return that belongs to its line ending.
pub open spec fn without_return(s: Seq<char>) -> Seq<char> {
    if s.len() > 0 && s.last() == '\r' {
        s.drop_last()
    } else {
        s
    }
}

/// The lines of a text. A line ends with a newline or with a carriage return and a newline; the
/// ending of the last line may be missing.
pub open spec fn lines_of(s: Seq<char>) -> Seq<Seq<char>>
    decreases s.len(),
{
    let n = first_of(s, '\n') as int;
    if s.len() == 0 {
        seq![]
    } else if n >= s.len() {
        seq![s]
    } else {
        seq![without_return(s.take(n))] + lines_of(s.skip(n + 1))
    }
}

/// The longest runs of characters that are not white space.
pub open spec fn words_of(s: Seq<char>) -> Seq<Seq<char>>
    decreases s.len(),
{
    let body = s.skip(leading(s, true) as int);
    let n = leading(body, false) as int;
    if body.len() == 0 || n <= 0 || leading(s, true) > s.len() || n > body.len() {
        seq![]
    } else {
        seq![body.take(n)] + words_of(body.skip(n))
    }
}

/// The decimal digits of a number.
pub open spec fn digits_of(n: nat) -> Seq<char>
    decreases n,
{
    if n < 10 {
        seq![((n + 48) as u8) as char]
    } else {
        digits_of(n / 10).push(((n % 10 + 48) as u8) as char)
    }
}

pub open spec fn is_digit(c: char) -> bool {
    '0' <= c <= '9'
}

/// The value of a run of decimal digits.
pub open spec fn value_of(s: Seq<char>) -> nat
    decreases s.len(),
{
    if s.len() == 0 {
        0
    } else {
        (10 * value_of(s.drop_last()) + (s.last() as u32 - 48)) as nat
    }
}

/// A text without the `+` that it may start with.
pub open spec fn without_plus(s: Seq<char>) -> Seq<char> {
    if s.len() > 0 && s[0] == '+' {
        s.drop_first()
    } else {
        s
    }
}

/// The number that a text spells: an optional `+`, then decimal digits, and no more than `max`.
pub open spec fn number_in(s: Seq<char>, max: nat) -> Option<nat> {
    let body = without_plus(s);
    if body.len() > 0 && (forall|i: int| 0 <= i < body.len() ==> is_digit(#[trigger] body[i]))
        && value_of(body) <= max {
        Some(value_of(body))
    } else {
        None
    }
}

/// The texts of a list, each by its characters.
pub open spec fn texts(list: Seq<Vec<char>>) -> Seq<Seq<char>> {
    list.map_values(|v: Vec<char>| v@)
}

pub fn is_whitespace(c: char) -> (result: bool)
    ensures
        result == is_space(c),
{
    ('\u{9}' <= c && c <= '\u{d}') || c == ' ' || c == '\u{85}' || c == '\u{a0}'
        || c == '\u{1680}' || ('\u{2000}' <= c && c <= '\u{200a}') || c == '\u{2028}'
        || c == '\u{2029}' || c == '\u{202f}' || c == '\u{205f}' || c == '\u{3000}'
}

pub fn is_control(c: char) -> (result: bool)
    ensures
        result == is_control_char(c),
{
    c <= '\u{1f}' || ('\u{7f}' <= c && c <= '\u{9f}')
}

pub fn to_lower_char(c: char) -> (result: char)
    ensures
        result == lower_char(c),
{
    if 'A' <= c && c <= 'Z' {
        ((c as u8) + 32) as char
    } else {
        c
    }
}

/// The characters of a string, in order.
pub fn chars_of(text: &str) -> (result: Vec<char>)
    ensures
        result@ == text@,
{
    let mut result: Vec<char> = Vec::new();
    for character in iter: text.chars()
        invariant
            iter.seq() == text@,
            result@ == text@.take(iter.index() as int),
    {
        result.push(character);
    }
    result
}

/// The part of a list of characters between two positions.
pub fn part(text: &[char], from: usize, to: usize) -> (result: Vec<char>)
    requires
        from <= to <= text@.len(),
    ensures
        result@ == text@.subrange(from as int, to as int),
{
    let mut result: Vec<char> = Vec::new();
    let mut i: usize = from;
    while i < to
        invariant
            from <= i <= to <= text@.len(),
            result@ == text@.subrange(from as int, i as int),
        decreases to - i,
    {
        result.push(text[i]);
        i += 1;
    }
    result
}

/// Whether two lists hold the same characters.
pub fn same_chars(a: &[char], b: &[char]) -> (result: bool)
    ensures
        result == (a@ == b@),
{
    if a.len() != b.len() {
        return false;
    }
    let mut i: usize = 0;
    while i < a.len()
        invariant
            i <= a@.len(),
            a@.len() == b@.len(),
            a@.take(i as int) == b@.take(i as int),
        decreases a@.len() - i,
    {
        if a[i] != b[i] {
            return false;
        }
        assert(a@.take(i + 1) =~= a@.take(i as int).push(a@[i as int]));
        assert(b@.take(i + 1) =~= b@.take(i as int).push(b@[i as int]));
        i += 1;
    }
    assert(a@.take(i as int) =~= a@);
    assert(b@.take(i as int) =~= b@);
    true
}

/// Whether two strings are equal.
pub fn same_text(a: &str, b: &str) -> (result: bool)
    ensures
        result == (a@ == b@),
{
    same_chars(&chars_of(a), &chars_of(b))
}

/// A text with its ASCII letters in lowercase.
pub fn to_lower(text: &[char]) -> (result: Vec<char>)
    ensures
        result@ == lower(text@),
{
    let mut result: Vec<char> = Vec::new();
    let mut i: usize = 0;
    while i < text.len()
        invariant
            i <= text@.len(),
            result@ == lower(text@).take(i as int),
        decreases text@.len() - i,
    {
        result.push(to_lower_char(text[i]));
        i += 1;
    }
    assert(lower(text@).take(i as int) =~= lower(text@));
    result
}

proof fn lemma_leading(s: Seq<char>, space: bool, n: int)
    requires
        0 <= n <= s.len(),
        forall|i: int| 0 <= i < n ==> is_space(#[trigger] s[i]) == space,
        n == s.len() || is_space(s[n]) != space,
    ensures
        leading(s, space) == n,
    decreases s.len(),
{
    if n > 0 {
        lemma_leading(s.drop_first(), space, n - 1);
    }
}

proof fn lemma_first_of(s: Seq<char>, c: char, n: int)
    requires
        0 <= n <= s.len(),
        forall|i: int| 0 <= i < n ==> #[trigger] s[i] != c,
        n == s.len() || s[n] == c,
    ensures
        first_of(s, c) == n,
    decreases s.len(),
{
    if n > 0 {
        lemma_first_of(s.drop_first(), c, n - 1);
    }
}

/// The position of the first `c` at or after `from`, or the length where there is none.
pub fn find_char(text: &[char], from: usize, c: char) -> (result: usize)
    requires
        from <= text@.len(),
    ensures
        from <= result <= text@.len(),
        result == from + first_of(text@.skip(from as int), c),
        result == text@.len() <==> !text@.skip(from as int).contains(c),
{
    let mut i: usize = from;
    while i < text.len() && text[i] != c
        invariant
            from <= i <= text@.len(),
            forall|k: int| from <= k < i ==> #[trigger] text@[k] != c,
        decreases text@.len() - i,
    {
        i += 1;
    }
    let ghost rest = text@.skip(from as int);
    proof {
        lemma_first_of(rest, c, i - from);
        if i < text@.len() {
            assert(rest[i - from] == c);
        }
    }
    i
}

/// Counts the characters from `from` on that are white space (`space`), or are not (`!space`).
fn run_from(text: &[char], from: usize, space: bool) -> (result: usize)
    requires
        from <= text@.len(),
    ensures
        from <= result <= text@.len(),
        result == from + leading(text@.skip(from as int), space),
        result < text@.len() ==> is_space(text@[result as int]) != space,
{
    let mut i: usize = from;
    while i < text.len() && is_whitespace(text[i]) == space
        invariant
            from <= i <= text@.len(),
            forall|k: int| from <= k < i ==> is_space(#[trigger] text@[k]) == space,
        decreases text@.len() - i,
    {
        i += 1;
    }
    proof {
        lemma_leading(text@.skip(from as int), space, i - from);
    }
    i
}

/// A text without the white space at its start and end.
pub fn trim(text: &[char]) -> (result: Vec<char>)
    ensures
        result@ == trimmed(text@),
{
    let start = run_from(text, 0, true);
    assert(text@.skip(0) =~= text@);
    let mut end: usize = text.len();
    let ghost body = text@.skip(start as int);
    assert(text@.subrange(start as int, end as int) =~= body);
    while end > start && is_whitespace(text[end - 1])
        invariant
            start <= end <= text@.len(),
            trim_end(text@.subrange(start as int, end as int)) == trim_end(body),
        decreases end,
    {
        assert(text@.subrange(start as int, end as int).drop_last() =~= text@.subrange(
            start as int,
            end - 1,
        ));
        end -= 1;
    }
    part(text, start, end)
}

/// A text without the occurrences of `c` at its end.
pub fn drop_trailing(text: &[char], c: char) -> (result: Vec<char>)
    ensures
        result@ == without_trailing(text@, c),
{
    let mut end: usize = text.len();
    assert(text@.subrange(0, end as int) =~= text@);
    while end > 0 && text[end - 1] == c
        invariant
            end <= text@.len(),
            without_trailing(text@.subrange(0, end as int), c) == without_trailing(text@, c),
        decreases end,
    {
        assert(text@.subrange(0, end as int).drop_last() =~= text@.subrange(0, end - 1));
        end -= 1;
    }
    part(text, 0, end)
}

/// The text before the first `c` and the text after it.
pub fn split_once(text: &[char], c: char) -> (result: Option<(Vec<char>, Vec<char>)>)
    ensures
        result matches Some(pair) ==> split_at_first(text@, c) == Some((pair.0@, pair.1@)),
        result is None ==> split_at_first(text@, c) is None,
{
    assert(text@.skip(0) =~= text@);
    let at = find_char(text, 0, c);
    if at == text.len() {
        return None;
    }
    let before = part(text, 0, at);
    let after = part(text, at + 1, text.len());
    assert(before@ =~= text@.take(at as int));
    assert(after@ =~= text@.skip(at + 1));
    Some((before, after))
}

/// The lines of a text.
pub fn lines(text: &[char]) -> (result: Vec<Vec<char>>)
    ensures
        texts(result@) == lines_of(text@),
{
    let mut result: Vec<Vec<char>> = Vec::new();
    let mut pos: usize = 0;
    assert(text@.skip(0) =~= text@);
    assert(texts(result@) + lines_of(text@) =~= lines_of(text@));
    while pos < text.len()
        invariant
            pos <= text@.len(),
            texts(result@) + lines_of(text@.skip(pos as int)) == lines_of(text@),
        decreases text@.len() - pos,
    {
        let ghost rest = text@.skip(pos as int);
        let ghost before = result@;
        let end = find_char(text, pos, '\n');
        if end == text.len() {
            let line = part(text, pos, end);
            assert(line@ =~= rest);
            result.push(line);
            assert(texts(result@) =~= texts(before) + seq![rest]);
            assert(text@.skip(end as int) =~= Seq::<char>::empty());
            assert(texts(result@) + lines_of(text@.skip(end as int)) =~= texts(result@));
            pos = end;
        } else {
            let stop = if end > pos && text[end - 1] == '\r' {
                end - 1
            } else {
                end
            };
            let line = part(text, pos, stop);
            assert(line@ =~= without_return(rest.take(end - pos)));
            result.push(line);
            assert(texts(result@) =~= texts(before) + seq![line@]);
            assert(rest.skip(end - pos + 1) =~= text@.skip(end + 1));
            assert(texts(before) + (seq![line@] + lines_of(text@.skip(end + 1))) =~= texts(result@)
                + lines_of(text@.skip(end + 1)));
            pos = end + 1;
        }
    }
    assert(text@.skip(pos as int) =~= Seq::<char>::empty());
    assert(texts(result@) + lines_of(text@.skip(pos as int)) =~= texts(result@));
    result
}

/// The longest runs of characters that are not white space.
pub fn words(text: &[char]) -> (result: Vec<Vec<char>>)
    ensures
        texts(result@) == words_of(text@),
{
    let mut result: Vec<Vec<char>> = Vec::new();
    let mut pos: usize = 0;
    assert(text@.skip(0) =~= text@);
    assert(texts(result@) + words_of(text@) =~= words_of(text@));
    loop
        invariant
            pos <= text@.len(),
            texts(result@) + words_of(text@.skip(pos as int)) == words_of(text@),
        decreases text@.len() - pos,
    {
        let ghost rest = text@.skip(pos as int);
        let ghost before = result@;
        let start = run_from(text, pos, true);
        let ghost body = rest.skip(leading(rest, true) as int);
        assert(body =~= text@.skip(start as int));
        if start == text.len() {
            assert(texts(result@) + words_of(rest) =~= texts(result@));
            return result;
        }
        let end = run_from(text, start, false);
        assert(leading(body, false) > 0) by {
            assert(body[0] == text@[start as int]);
        }
        let word = part(text, start, end);
        assert(word@ =~= body.take(end - start));
        result.push(word);
        assert(texts(result@) =~= texts(before) + seq![word@]);
        assert(body.skip(end - start) =~= text@.skip(end as int));
        assert(texts(before) + (seq![word@] + words_of(text@.skip(end as int))) =~= texts(result@)
            + words_of(text@.skip(end as int)));
        pos = end;
    }
}

/// The decimal digits of a number.
pub fn decimal(n: u64) -> (result: Vec<char>)
    ensures
        result@ == digits_of(n as nat),
    decreases n,
{
    if n < 10 {
        let mut result: Vec<char> = Vec::new();
        result.push((n as u8 + 48) as char);
        result
    } else {
        let mut result = decimal(n / 10);
        result.push((((n % 10) as u8) + 48) as char);
        result
    }
}

/// A number as a string.
pub fn number(n: u64) -> (result: String)
    ensures
        result@ == digits_of(n as nat),
{
    string_from_chars(&decimal(n))
}

proof fn lemma_value_grows(s: Seq<char>, n: int)
    requires
        0 <= n <= s.len(),
        forall|i: int| 0 <= i < s.len() ==> is_digit(#[trigger] s[i]),
    ensures
        value_of(s.take(n)) <= value_of(s),
    decreases s.len() - n,
{
    if n < s.len() {
        assert(s.take(n + 1).drop_last() =~= s.take(n));
        lemma_value_grows(s, n + 1);
    } else {
        assert(s.take(n) =~= s);
    }
}

/// The number that a text spells: an optional `+`, then decimal digits, and no more than `max`.
pub fn parse_number(text: &[char], max: u32) -> (result: Option<u32>)
    ensures
        result matches Some(n) ==> number_in(text@, max as nat) == Some(n as nat),
        result is None ==> number_in(text@, max as nat) is None,
{
    let start: usize = if text.len() > 0 && text[0] == '+' {
        1
    } else {
        0
    };
    let ghost body = text@.skip(start as int);
    assert(body =~= without_plus(text@));
    if start == text.len() {
        return None;
    }
    let mut i: usize = start;
    let mut value: u64 = 0;
    while i < text.len()
        invariant
            start <= i <= text@.len(),
            body == text@.skip(start as int),
            body == without_plus(text@),
            forall|k: int| 0 <= k < i - start ==> is_digit(#[trigger] body[k]),
            value == value_of(body.take(i - start)),
            value <= max,
        decreases text@.len() - i,
    {
        let c = text[i];
        assert(c == body[i - start]);
        if !('0' <= c && c <= '9') {
            return None;
        }
        assert(body.take(i - start + 1).drop_last() =~= body.take(i - start));
        value = value * 10 + (c as u32 - 48) as u64;
        i += 1;
        if value > max as u64 {
            proof {
                if forall|k: int| 0 <= k < body.len() ==> is_digit(#[trigger] body[k]) {
                    lemma_value_grows(body, i - start);
                }
            }
            return None;
        }
    }
    assert(body.take(i - start) =~= body);
    Some(value as u32)
}

/// Whether a text holds a character.
pub fn has_char(text: &[char], c: char) -> (result: bool)
    ensures
        result == text@.contains(c),
{
    assert(text@.skip(0) =~= text@);
    find_char(text, 0, c) < text.len()
}

/// What follows `prefix` in a text that starts with it.
pub fn after_prefix(text: &[char], prefix: &[char]) -> (result: Option<Vec<char>>)
    ensures
        result is Some <==> prefix@.is_prefix_of(text@),
        result matches Some(rest) ==> text@ == prefix@ + rest@,
{
    if text.len() < prefix.len() {
        return None;
    }
    let head = part(text, 0, prefix.len());
    if !same_chars(&head, prefix) {
        return None;
    }
    let rest = part(text, prefix.len(), text.len());
    assert(text@ =~= prefix@ + rest@);
    Some(rest)
}

/// What precedes `suffix` in a text that ends with it.
pub fn before_suffix(text: &[char], suffix: &[char]) -> (result: Option<Vec<char>>)
    ensures
        result is Some <==> suffix@.is_suffix_of(text@),
        result matches Some(rest) ==> text@ == rest@ + suffix@,
{
    if text.len() < suffix.len() {
        return None;
    }
    let at = text.len() - suffix.len();
    let tail = part(text, at, text.len());
    if !same_chars(&tail, suffix) {
        return None;
    }
    let rest = part(text, 0, at);
    assert(text@ =~= rest@ + suffix@);
    Some(rest)
}

proof fn lemma_digits(n: nat)
    ensures
        digits_of(n).len() > 0,
        value_of(digits_of(n)) == n,
        forall|i: int| 0 <= i < digits_of(n).len() ==> is_digit(#[trigger] digits_of(n)[i]),
    decreases n,
{
    reveal_with_fuel(value_of, 2);
    let d = ((n % 10 + 48) as u8) as char;
    assert(is_digit(d) && d as u32 - 48 == n % 10);
    if n < 10 {
        assert(digits_of(n).drop_last() =~= seq![]);
    } else {
        lemma_digits(n / 10);
        assert(digits_of(n).drop_last() =~= digits_of(n / 10));
    }
}

/// Reading the decimal digits of a number gives the number back.
pub proof fn law_decimal_round_trip(n: nat, max: nat)
    requires
        n <= max,
    ensures
        number_in(digits_of(n), max) == Some(n),
{
    lemma_digits(n);
    assert(is_digit(digits_of(n)[0]));
}

/// A number with a line ending after it is the number, once the white space is gone.
pub proof fn law_number_line_round_trip(n: nat)
    ensures
        trimmed(digits_of(n).push('\n')) == digits_of(n),
{
    lemma_digits(n);
    let digits = digits_of(n);
    let line = digits.push('\n');
    assert(is_digit(digits[0]));
    assert(is_digit(digits[digits.len() - 1]));
    assert(line.skip(0) =~= line);
    assert(line.drop_last() =~= digits);
    reveal_with_fuel(trim_end, 2);
}

/// White space around a text is taken off, and nothing else is.
pub proof fn law_trimming_takes_white_space_off(
    before: Seq<char>,
    core: Seq<char>,
    after: Seq<char>,
)
    requires
        forall|i: int| 0 <= i < before.len() ==> is_space(#[trigger] before[i]),
        forall|i: int| 0 <= i < after.len() ==> is_space(#[trigger] after[i]),
        core.len() > 0 ==> !is_space(core[0]) && !is_space(core.last()),
    ensures
        trimmed(before + core + after) == core,
    decreases after.len(),
{
    let s = before + core + after;
    if core.len() == 0 {
        assert forall|i: int| 0 <= i < s.len() implies is_space(#[trigger] s[i]) by {
            if i < before.len() {
                assert(s[i] == before[i]);
            } else {
                assert(s[i] == after[i - before.len()]);
            }
        }
        lemma_leading(s, true, s.len() as int);
        assert(s.skip(s.len() as int) =~= core);
    } else {
        assert(s[before.len() as int] == core[0]);
        assert forall|i: int| 0 <= i < before.len() implies is_space(#[trigger] s[i]) by {
            assert(s[i] == before[i]);
        }
        lemma_leading(s, true, before.len() as int);
        assert(s.skip(before.len() as int) =~= core + after);
        lemma_trim_end(core, after);
    }
}

proof fn lemma_trim_end(core: Seq<char>, after: Seq<char>)
    requires
        core.len() > 0,
        !is_space(core.last()),
        forall|i: int| 0 <= i < after.len() ==> is_space(#[trigger] after[i]),
    ensures
        trim_end(core + after) == core,
    decreases after.len(),
{
    if after.len() == 0 {
        assert(core + after =~= core);
    } else {
        assert((core + after).last() == after.last());
        assert(is_space(after[after.len() - 1]));
        assert((core + after).drop_last() =~= core + after.drop_last());
        lemma_trim_end(core, after.drop_last());
    }
}

/// However often a character stands at the end of a text, it is taken off, and no other is.
pub proof fn law_trailing_characters_are_dropped(core: Seq<char>, c: char, n: nat)
    requires
        core.len() > 0 ==> core.last() != c,
    ensures
        without_trailing(core + Seq::new(n, |i: int| c), c) == core,
    decreases n,
{
    let tail = Seq::new(n, |i: int| c);
    let s = core + tail;
    if n == 0 {
        assert(s =~= core);
    } else {
        assert(s.last() == c);
        assert(s.drop_last() =~= core + Seq::new((n - 1) as nat, |i: int| c));
        law_trailing_characters_are_dropped(core, c, (n - 1) as nat);
    }
}

/// A text is split at the first occurrence of a character: what stands before it has none.
pub proof fn law_split_is_at_the_first(before: Seq<char>, c: char, after: Seq<char>)
    requires
        forall|i: int| 0 <= i < before.len() ==> #[trigger] before[i] != c,
    ensures
        split_at_first(before + seq![c] + after, c) == Some((before, after)),
        split_at_first(before, c) is None,
{
    let s = before + seq![c] + after;
    let n = before.len() as int;
    assert(s[n] == c);
    assert forall|i: int| 0 <= i < n implies #[trigger] s[i] != c by {
        assert(s[i] == before[i]);
    }
    lemma_first_of(s, c, n);
    assert(s.contains(c));
    assert(s.take(n) =~= before);
    assert(s.skip(n + 1) =~= after);
}

/// Every text is split at most in one way: into what stands before the first occurrence and what
/// stands after it.
pub proof fn law_split_gives_the_text_back(s: Seq<char>, c: char)
    ensures
        match split_at_first(s, c) {
            Some((before, after)) => {
                &&& s == before + seq![c] + after
                &&& forall|i: int| 0 <= i < before.len() ==> #[trigger] before[i] != c
            },
            None => forall|i: int| 0 <= i < s.len() ==> #[trigger] s[i] != c,
        },
    decreases s.len(),
{
    if s.contains(c) {
        lemma_first_is_first(s, c);
        let n = first_of(s, c) as int;
        assert(s =~= s.take(n) + seq![c] + s.skip(n + 1));
    }
}

proof fn lemma_first_is_first(s: Seq<char>, c: char)
    ensures
        first_of(s, c) <= s.len(),
        first_of(s, c) < s.len() ==> s[first_of(s, c) as int] == c,
        forall|i: int| 0 <= i < first_of(s, c) ==> #[trigger] s[i] != c,
        s.contains(c) ==> first_of(s, c) < s.len(),
    decreases s.len(),
{
    if s.len() > 0 && s[0] != c {
        let rest = s.drop_first();
        lemma_first_is_first(rest, c);
        assert forall|i: int| 0 <= i < first_of(s, c) implies #[trigger] s[i] != c by {
            if i > 0 {
                assert(rest[i - 1] == s[i]);
            }
        }
        if s.contains(c) {
            let k = choose|k: int| 0 <= k < s.len() && s[k] == c;
            assert(rest[k - 1] == c);
        }
    }
}

/// A line of a text is what stands before its line ending, which is a newline with or without a
/// carriage return before it; the lines after it are those of the rest. The last line needs no
/// ending, and there is no line after a last ending.
pub proof fn law_lines_are_what_line_endings_end(line: Seq<char>, rest: Seq<char>)
    requires
        forall|i: int| 0 <= i < line.len() ==> #[trigger] line[i] != '\n',
    ensures
        line.len() == 0 || line.last() != '\r' ==> lines_of(line + seq!['\n'] + rest) == seq![line]
            + lines_of(rest),
        lines_of(line + seq!['\r', '\n'] + rest) == seq![line] + lines_of(rest),
        line.len() > 0 ==> lines_of(line) == seq![line],
        lines_of(Seq::<char>::empty()) == Seq::<Seq<char>>::empty(),
{
    let s = line + seq!['\n'] + rest;
    let n = line.len() as int;
    assert forall|i: int| 0 <= i < n implies #[trigger] s[i] != '\n' by {
        assert(s[i] == line[i]);
    }
    assert(s[n] == '\n');
    lemma_first_of(s, '\n', n);
    assert(s.take(n) =~= line);
    assert(s.skip(n + 1) =~= rest);
    let t = line + seq!['\r', '\n'] + rest;
    assert forall|i: int| 0 <= i < n + 1 implies #[trigger] t[i] != '\n' by {
        if i < n {
            assert(t[i] == line[i]);
        }
    }
    assert(t[n + 1] == '\n');
    lemma_first_of(t, '\n', n + 1);
    assert(t.take(n + 1) =~= line.push('\r'));
    assert(without_return(line.push('\r')) =~= line);
    assert(t.skip(n + 2) =~= rest);
    if line.len() > 0 {
        lemma_first_of(line, '\n', n);
    }
    assert(lines_of(Seq::<char>::empty()) =~= Seq::<Seq<char>>::empty());
}

/// A word is a run of characters without white space: what stands before it does not count, and
/// the words after it are those of the rest. White space alone has no words.
pub proof fn law_words_are_what_white_space_parts(
    before: Seq<char>,
    word: Seq<char>,
    rest: Seq<char>,
)
    requires
        forall|i: int| 0 <= i < before.len() ==> is_space(#[trigger] before[i]),
        forall|i: int| 0 <= i < word.len() ==> !is_space(#[trigger] word[i]),
        word.len() > 0,
        rest.len() > 0 ==> is_space(rest[0]),
    ensures
        words_of(before + word + rest) == seq![word] + words_of(rest),
        words_of(before) == Seq::<Seq<char>>::empty(),
{
    let s = before + word + rest;
    let n = before.len() as int;
    assert forall|i: int| 0 <= i < n implies is_space(#[trigger] s[i]) by {
        assert(s[i] == before[i]);
    }
    assert(s[n] == word[0]);
    lemma_leading(s, true, n);
    let body = s.skip(n);
    assert(body =~= word + rest);
    assert forall|i: int| 0 <= i < word.len() implies is_space(#[trigger] body[i]) == false by {
        assert(body[i] == word[i]);
    }
    if rest.len() > 0 {
        assert(body[word.len() as int] == rest[0]);
    }
    lemma_leading(body, false, word.len() as int);
    assert(body.take(word.len() as int) =~= word);
    assert(body.skip(word.len() as int) =~= rest);
    lemma_leading(before, true, n);
    assert(before.skip(n).len() == 0);
    assert(words_of(before) =~= Seq::<Seq<char>>::empty());
}

/// The decimal digits of a number: one character for a number below ten, and otherwise those of
/// its tenth with one more.
pub proof fn law_digits_are_decimal(n: nat, d: nat)
    requires
        d < 10,
    ensures
        digits_of(d) == seq!["0123456789"@[d as int]],
        n > 0 ==> digits_of(10 * n + d) == digits_of(n).push("0123456789"@[d as int]),
{
    reveal_strlit("0123456789");
    assert(((d + 48) as u8) as char == "0123456789"@[d as int]);
    assert((10 * n + d) / 10 == n && (10 * n + d) % 10 == d);
}

/// What is read as a number is one: after a plus, if there is one, zeros and then the digits of
/// the number, which is not beyond the limit.
pub proof fn law_only_numbers_are_read(s: Seq<char>, max: nat)
    ensures
        number_in(s, max) matches Some(n) ==> {
            &&& n <= max
            &&& exists|zeros: nat|
                s == #[trigger] spelled(zeros, n) || s == seq!['+'] + spelled(zeros, n)
        },
{
    if let Some(n) = number_in(s, max) {
        let body = without_plus(s);
        lemma_spelled(body);
        if s.len() > 0 && s[0] == '+' {
            assert(s =~= seq!['+'] + body);
        }
    }
}

/// So many zeros.
pub open spec fn zeros_text(zeros: nat) -> Seq<char> {
    Seq::new(zeros, |i: int| '0')
}

/// A number in decimal, with so many zeros before it.
pub open spec fn spelled(zeros: nat, n: nat) -> Seq<char> {
    zeros_text(zeros) + digits_of(n)
}

proof fn lemma_spelled(body: Seq<char>)
    requires
        body.len() > 0,
        forall|i: int| 0 <= i < body.len() ==> is_digit(#[trigger] body[i]),
    ensures
        exists|zeros: nat| body == #[trigger] spelled(zeros, value_of(body)),
    decreases body.len(),
{
    let d = (body.last() as u32 - 48) as nat;
    assert(is_digit(body[body.len() - 1]));
    assert(((d + 48) as u8) as char == body.last());
    reveal_with_fuel(value_of, 2);
    if body.len() == 1 {
        assert(body.drop_last().len() == 0);
        assert(value_of(body) == d);
        assert(body =~= spelled(0, d));
    } else {
        let front = body.drop_last();
        assert forall|i: int| 0 <= i < front.len() implies is_digit(#[trigger] front[i]) by {
            assert(front[i] == body[i]);
        }
        lemma_spelled(front);
        let zeros = choose|zeros: nat| front == #[trigger] spelled(zeros, value_of(front));
        let n = value_of(front);
        assert(value_of(body) == 10 * n + d);
        if n > 0 {
            assert((10 * n + d) / 10 == n && (10 * n + d) % 10 == d);
            let more = digits_of(n).push(body.last());
            assert(digits_of(10 * n + d) == more);
            assert(body =~= front.push(body.last()));
            assert(zeros_text(zeros) + more =~= (zeros_text(zeros) + digits_of(n)).push(body.last()));
            assert(body =~= spelled(zeros, 10 * n + d));
        } else {
            assert(digits_of(0) =~= seq!['0']);
            assert(front =~= zeros_text(zeros + 1));
            assert(digits_of(d) =~= seq![body.last()]);
            assert(body =~= spelled(zeros + 1, d));
        }
    }
}

/// Every way to write a number in decimal is read as the number, with zeros before it or none,
/// and with a plus or without one, as long as it is not beyond the limit.
pub proof fn law_numbers_are_read(zeros: nat, n: nat, max: nat)
    requires
        n <= max,
    ensures
        number_in(spelled(zeros, n), max) == Some(n),
        number_in(seq!['+'] + spelled(zeros, n), max) == Some(n),
{
    lemma_digits(n);
    lemma_zeros(zeros, digits_of(n));
    let s = spelled(zeros, n);
    assert forall|i: int| 0 <= i < s.len() implies is_digit(#[trigger] s[i]) by {
        if i >= zeros {
            assert(s[i] == digits_of(n)[i - zeros]);
        }
    }
    assert(is_digit(s[0]));
    assert((seq!['+'] + s).drop_first() =~= s);
}

proof fn lemma_zeros(zeros: nat, digits: Seq<char>)
    ensures
        value_of(zeros_text(zeros) + digits) == value_of(digits),
    decreases digits.len(), zeros,
{
    let s = zeros_text(zeros) + digits;
    if digits.len() > 0 {
        assert(s.drop_last() =~= zeros_text(zeros) + digits.drop_last());
        lemma_zeros(zeros, digits.drop_last());
    } else if zeros > 0 {
        assert(s.drop_last() =~= zeros_text((zeros - 1) as nat) + digits);
        lemma_zeros((zeros - 1) as nat, digits);
    }
}

/// A text in lowercase has each of its characters in lowercase, and only capital ASCII letters
/// change.
pub proof fn law_lowercase_is_by_character(a: Seq<char>, b: Seq<char>, c: char)
    ensures
        lower(a + b) == lower(a) + lower(b),
        lower(seq![c]).len() == 1,
        'A' <= c <= 'Z' ==> lower(seq![c])[0] as u32 == c as u32 + 32,
        !('A' <= c <= 'Z') ==> lower(seq![c])[0] == c,
        lower(Seq::<char>::empty()) == Seq::<char>::empty(),
        lower(lower(a)) == lower(a),
{
    assert(lower(a + b) =~= lower(a) + lower(b));
    assert(lower(Seq::<char>::empty()) =~= Seq::<char>::empty());
    assert(lower(lower(a)) =~= lower(a));
}

/// Trimming, dropping, splitting and cutting a text do what is said of them above.
pub proof fn law_text_functions(
    text: &[char],
    c: char,
    cut: Vec<char>,
    dropped: Vec<char>,
    split: Option<(Vec<char>, Vec<char>)>,
    all: Vec<Vec<char>>,
    parts: Vec<Vec<char>>,
    small: Vec<char>,
)
    requires
        call_ensures(trim, (text,), cut),
        call_ensures(drop_trailing, (text, c), dropped),
        call_ensures(split_once, (text, c), split),
        call_ensures(lines, (text,), all),
        call_ensures(words, (text,), parts),
        call_ensures(to_lower, (text,), small),
    ensures
        cut@ == trimmed(text@),
        dropped@ == without_trailing(text@, c),
        split matches Some((a, b)) ==> text@ == a@ + seq![c] + b@ && !a@.contains(c),
        split is None ==> !text@.contains(c),
        texts(all@) == lines_of(text@),
        texts(parts@) == words_of(text@),
        small@ == lower(text@),
{
    law_split_gives_the_text_back(text@, c);
}

pub(crate) proof fn lemma_spelled_has_no_space(zeros: nat, n: nat)
    ensures
        spelled(zeros, n).len() > 0,
        !is_space(spelled(zeros, n)[0]),
        !is_space(spelled(zeros, n).last()),
{
    lemma_digits(n);
    let digits = digits_of(n);
    assert(is_digit(digits[0]));
    assert(is_digit(digits[digits.len() - 1]));
}

/// Searching a text finds the first of a character from a place on, and the end where there is
/// none; cutting and comparing are exact.
pub proof fn law_searches_find_the_first(
    text: &[char],
    from: usize,
    c: char,
    at: usize,
    has: bool,
    to: usize,
    piece: Vec<char>,
    a: &str,
    b: &str,
    same: bool,
)
    requires
        from <= text@.len(),
        call_ensures(find_char, (text, from, c), at),
        call_ensures(has_char, (text, c), has),
        from <= to <= text@.len(),
        call_ensures(part, (text, from, to), piece),
        call_ensures(same_text, (a, b), same),
    ensures
        from <= at <= text@.len(),
        at < text@.len() ==> text@[at as int] == c,
        forall|i: int| from <= i < at ==> #[trigger] text@[i] != c,
        has <==> text@.contains(c),
        piece@.len() == to - from,
        forall|i: int| 0 <= i < piece@.len() ==> #[trigger] piece@[i] == text@[from + i],
        same <==> a@ == b@,
{
    let rest = text@.skip(from as int);
    lemma_first_is_first(rest, c);
    if at < text@.len() {
        assert(rest[at - from] == text@[at as int]);
    }
    assert forall|i: int| from <= i < at implies #[trigger] text@[i] != c by {
        assert(rest[i - from] == text@[i]);
    }
}

} // verus!
