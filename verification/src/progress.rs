//! Tolerant parsing of one output line of the external downloader into a
//! progress sample: a numeric value immediately preceding a `%` character
//! is the percentage, the token after the marker word `at` is the speed,
//! and the token after the marker word `ETA` is the estimated time left.
//! A line without a well-formed percentage is not a progress line.

use vstd::prelude::*;

use crate::models::{ProgressSample, SampleModel};
use crate::text::{char_index_from, find_char, split_ws, str_eq, tokens_of};

verus! {

/// A decimal digit.
pub open spec fn is_digit_char(c: char) -> bool {
    '0' as u32 <= c as u32 && c as u32 <= '9' as u32
}

/// The value of a decimal digit.
pub open spec fn digit_val(c: char) -> int {
    c as u32 - '0' as u32
}

/// A well-formed number: only digits and at most one dot, with at least
/// one digit ("45", "45.2", "45.", ".5").
pub open spec fn is_number(t: Seq<char>) -> bool {
    &&& forall|i: int| 0 <= i < t.len() ==> is_digit_char(t[i]) || t[i] == '.'
    &&& exists|i: int| 0 <= i < t.len() && is_digit_char(t[i])
    &&& forall|i: int, j: int|
        0 <= i < t.len() && 0 <= j < t.len() && t[i] == '.' && t[j] == '.' ==> i == j
}

/// A token carrying the percentage: a well-formed number immediately
/// followed by a final `%`.
pub open spec fn is_percent_token(t: Seq<char>) -> bool {
    t.len() >= 1 && t.last() == '%' && is_number(t.drop_last())
}

/// The value of a string of digits read in base ten.
pub open spec fn digits_val(t: Seq<char>) -> int
    decreases t.len(),
{
    if t.len() == 0 {
        0
    } else {
        digits_val(t.drop_last()) * 10 + digit_val(t.last())
    }
}

/// The value of a well-formed number in hundredths: the whole part times
/// one hundred plus the first two digits of the fraction, further digits
/// being beyond the display's resolution.
pub open spec fn number_hundredths(num: Seq<char>) -> int {
    let d = char_index_from(num, '.', 0);
    let whole = digits_val(num.take(d));
    let frac = if d < num.len() {
        num.subrange(d + 1, num.len() as int)
    } else {
        Seq::<char>::empty()
    };
    let tenths = if frac.len() >= 1 {
        digit_val(frac[0])
    } else {
        0
    };
    let hundredths = if frac.len() >= 2 {
        digit_val(frac[1])
    } else {
        0
    };
    whole * 100 + tenths * 10 + hundredths
}

/// Index of the first percent token at or after `i`, or the length.
pub open spec fn percent_token_index_from(ts: Seq<Seq<char>>, i: int) -> int
    decreases ts.len() - i,
{
    if i < 0 || i >= ts.len() {
        ts.len() as int
    } else if is_percent_token(ts[i]) {
        i
    } else {
        percent_token_index_from(ts, i + 1)
    }
}

/// Index of the first token equal to the marker `w` at or after `i`, or
/// the length.
pub open spec fn marker_index_from(ts: Seq<Seq<char>>, w: Seq<char>, i: int) -> int
    decreases ts.len() - i,
{
    if i < 0 || i >= ts.len() {
        ts.len() as int
    } else if ts[i] == w {
        i
    } else {
        marker_index_from(ts, w, i + 1)
    }
}

/// The token following the first occurrence of the marker `w`, or the
/// empty string when the marker is absent or stands last.
pub open spec fn token_after_marker(ts: Seq<Seq<char>>, w: Seq<char>) -> Seq<char> {
    let i = marker_index_from(ts, w, 0);
    if i + 1 < ts.len() {
        ts[i + 1]
    } else {
        Seq::<char>::empty()
    }
}

/// What one line of the tool's output yields: `Some` sample exactly when
/// some whitespace token is a well-formed number followed by `%` whose
/// value in hundredths of a percent fits the sample's field, and `None`
/// otherwise (the line is then ignored).
pub open spec fn parsed_progress(line: Seq<char>) -> Option<SampleModel> {
    let ts = tokens_of(line);
    let pi = percent_token_index_from(ts, 0);
    if pi < ts.len() && number_hundredths(ts[pi].drop_last()) <= u32::MAX {
        Some(
            SampleModel {
                percent_hundredths: number_hundredths(ts[pi].drop_last()),
                speed: token_after_marker(ts, "at"@),
                eta: token_after_marker(ts, "ETA"@),
            },
        )
    } else {
        None
    }
}

/// Executable digit test.
fn digit_char(c: char) -> (r: bool)
    ensures
        r == is_digit_char(c),
{
    let u = c as u32;
    ('0' as u32) <= u && u <= ('9' as u32)
}

/// Executable digit value.
fn digit_value(c: char) -> (v: u32)
    requires
        is_digit_char(c),
    ensures
        v as int == digit_val(c),
        v <= 9,
{
    c as u32 - '0' as u32
}

/// Executable well-formed-number test.
fn number_token(t: &str) -> (r: bool)
    ensures
        r == is_number(t@),
{
    let n = t.unicode_len();
    let mut saw_digit: bool = false;
    let mut saw_dot: bool = false;
    let ghost mut dot_at: int = 0;
    let mut i: usize = 0;
    while i < n
        invariant
            i <= n,
            n == t@.len(),
            forall|j: int| 0 <= j < i ==> is_digit_char(t@[j]) || t@[j] == '.',
            saw_digit == exists|j: int| 0 <= j < i && is_digit_char(t@[j]),
            saw_dot ==> 0 <= dot_at < i && t@[dot_at] == '.',
            !saw_dot ==> forall|j: int| 0 <= j < i ==> t@[j] != '.',
            saw_dot ==> forall|j: int| 0 <= j < i && t@[j] == '.' ==> j == dot_at,
        decreases n - i,
    {
        let c = t.get_char(i);
        if c == '.' {
            if saw_dot {
                return false;
            }
            saw_dot = true;
            proof {
                dot_at = i as int;
            }
        } else if digit_char(c) {
            saw_digit = true;
        } else {
            return false;
        }
        i += 1;
    }
    saw_digit
}

/// Executable percent-token test.
fn percent_token(t: &str) -> (r: bool)
    ensures
        r == is_percent_token(t@),
{
    let n = t.unicode_len();
    if n == 0 {
        return false;
    }
    if t.get_char(n - 1) != '%' {
        return false;
    }
    let num = t.substring_char(0, n - 1);
    proof {
        assert(num@ =~= t@.drop_last());
    }
    number_token(num)
}

proof fn lemma_digits_val_nonneg(t: Seq<char>)
    requires
        forall|i: int| 0 <= i < t.len() ==> is_digit_char(t[i]),
    ensures
        digits_val(t) >= 0,
    decreases t.len(),
{
    if t.len() > 0 {
        lemma_digits_val_nonneg(t.drop_last());
    }
}

proof fn lemma_digits_val_prefix(t: Seq<char>, k: int)
    requires
        0 <= k <= t.len(),
        forall|i: int| 0 <= i < t.len() ==> is_digit_char(t[i]),
    ensures
        digits_val(t.take(k)) <= digits_val(t),
    decreases t.len() - k,
{
    if k == t.len() {
        assert(t.take(k) =~= t);
    } else {
        assert(t.take(k + 1).drop_last() =~= t.take(k));
        lemma_digits_val_nonneg(t.take(k));
        lemma_digits_val_prefix(t, k + 1);
    }
}

/// Executable value of a well-formed number in hundredths of a percent,
/// or `None` when it does not fit a `u32`.
fn number_value_hundredths(num: &str) -> (r: Option<u32>)
    requires
        is_number(num@),
    ensures
        match r {
            Some(v) => v as int == number_hundredths(num@),
            None => number_hundredths(num@) > u32::MAX,
        },
{
    let n = num.unicode_len();
    let d = find_char(num, '.');
    let ghost whole_chars = num@.take(d as int);
    proof {
        assert forall|i: int| 0 <= i < whole_chars.len() implies is_digit_char(
            whole_chars[i],
        ) by {
            assert(whole_chars[i] == num@[i]);
            assert(is_digit_char(num@[i]) || num@[i] == '.');
        }
    }
    let mut whole: u64 = 0;
    let mut j: usize = 0;
    while j < d
        invariant
            j <= d <= n,
            n == num@.len(),
            whole_chars == num@.take(d as int),
            d as int == char_index_from(num@, '.', 0),
            d < n ==> num@[d as int] == '.',
            is_number(num@),
            forall|i: int| 0 <= i < whole_chars.len() ==> is_digit_char(whole_chars[i]),
            whole as int == digits_val(whole_chars.take(j as int)),
            whole <= 42_949_672,
        decreases d - j,
    {
        let c = num.get_char(j);
        proof {
            assert(whole_chars[j as int] == num@[j as int]);
            assert(whole_chars.take(j as int + 1).drop_last() =~= whole_chars.take(j as int));
            assert(whole_chars.take(j as int + 1).last() == whole_chars[j as int]);
        }
        let next: u64 = whole * 10 + (digit_value(c) as u64);
        if next > 42_949_672 {
            proof {
                assert(digits_val(whole_chars.take(j as int + 1)) == next);
                lemma_digits_val_prefix(whole_chars, j as int + 1);
                assert(digits_val(whole_chars) >= next);
                lemma_whole_part_lower_bound(num@, d as int);
            }
            return None;
        }
        whole = next;
        j += 1;
    }
    proof {
        assert(whole_chars.take(d as int) =~= whole_chars);
    }
    let mut tenths: u64 = 0;
    let mut hundredths: u64 = 0;
    if n - d > 1 {
        let c = num.get_char(d + 1);
        proof {
            assert(num@[d as int + 1] != '.');
        }
        tenths = digit_value(c) as u64;
    }
    if n - d > 2 {
        let c = num.get_char(d + 2);
        proof {
            assert(num@[d as int + 2] != '.');
        }
        hundredths = digit_value(c) as u64;
    }
    let value: u64 = whole * 100 + tenths * 10 + hundredths;
    proof {
        assert(value as int == number_hundredths(num@));
    }
    if value > u32::MAX as u64 {
        None
    } else {
        Some(value as u32)
    }
}

/// In hundredths, a well-formed number is at least one hundred times its
/// whole part: the fractional digits only add.
proof fn lemma_whole_part_lower_bound(num: Seq<char>, d: int)
    requires
        is_number(num),
        d == char_index_from(num, '.', 0),
        0 <= d <= num.len(),
        d < num.len() ==> num[d] == '.',
    ensures
        number_hundredths(num) >= 100 * digits_val(num.take(d)),
{
    let frac = if d < num.len() {
        num.subrange(d + 1, num.len() as int)
    } else {
        Seq::<char>::empty()
    };
    if frac.len() >= 1 {
        assert(num[d + 1] != '.');
        assert(is_digit_char(num[d + 1]));
    }
    if frac.len() >= 2 {
        assert(num[d + 2] != '.');
        assert(is_digit_char(num[d + 2]));
    }
}

/// Index of the first percent token, or the token count when none exists.
fn find_percent_token(tokens: &Vec<String>) -> (r: usize)
    ensures
        r as int == percent_token_index_from(tokens.deep_view(), 0),
        r <= tokens.len(),
        r < tokens.len() ==> is_percent_token(tokens.deep_view()[r as int]),
{
    let n = tokens.len();
    let mut i: usize = 0;
    while i < n
        invariant
            i <= n,
            n == tokens.len(),
            percent_token_index_from(tokens.deep_view(), 0) == percent_token_index_from(
                tokens.deep_view(),
                i as int,
            ),
        decreases n - i,
    {
        if percent_token(tokens[i].as_str()) {
            return i;
        }
        i += 1;
    }
    n
}

/// The token after the first occurrence of `word`, or empty when `word`
/// is absent or stands last.
fn token_after(tokens: &Vec<String>, word: &str) -> (r: String)
    ensures
        r@ == token_after_marker(tokens.deep_view(), word@),
{
    let n = tokens.len();
    let mut i: usize = 0;
    while i < n
        invariant
            i <= n,
            n == tokens.len(),
            marker_index_from(tokens.deep_view(), word@, 0) == marker_index_from(
                tokens.deep_view(),
                word@,
                i as int,
            ),
        decreases n - i,
    {
        if str_eq(tokens[i].as_str(), word) {
            if i + 1 < n {
                return tokens[i + 1].clone();
            }
            return String::new();
        }
        i += 1;
    }
    String::new()
}

/// Attempts to read one output line as a progress report. Returns the
/// sample exactly when the line holds a well-formed `<number>%` token
/// (`parsed_progress` gives the value); any other line yields `None` and
/// is to be ignored. The percentage is carried in integer hundredths of
/// a percent, so fraction digits beyond the second are truncated; at the
/// tool's one-decimal output the value is exact.
pub fn parse_progress_line(line: &str) -> (r: Option<ProgressSample>)
    ensures
        match r {
            Some(p) => parsed_progress(line@) == Some(p@),
            None => parsed_progress(line@) is None,
        },
{
    let tokens = split_ws(line);
    let pi = find_percent_token(&tokens);
    if pi == tokens.len() {
        return None;
    }
    let tok = tokens[pi].as_str();
    let n = tok.unicode_len();
    proof {
        assert(is_percent_token(tokens.deep_view()[pi as int]));
        assert(n >= 1);
    }
    let num = tok.substring_char(0, n - 1);
    proof {
        assert(num@ =~= tokens.deep_view()[pi as int].drop_last());
    }
    match number_value_hundredths(num) {
        Some(v) => {
            let speed = token_after(&tokens, "at");
            let eta = token_after(&tokens, "ETA");
            Some(ProgressSample { percent_hundredths: v, speed, eta })
        },
        None => None,
    }
}

} // verus!
