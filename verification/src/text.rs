//! Character-level text helpers: whitespace classification, blankness,
//! string comparison, and whitespace tokenization of a line.

use vstd::prelude::*;

verus! {

/// Characters treated as token separators and as trimmable blanks.
pub open spec fn is_space_char(c: char) -> bool {
    c == ' ' || c == '\t' || c == '\r' || c == '\n'
}

/// A string is blank when every character is whitespace, so that trimming
/// it leaves nothing.
pub open spec fn is_blank(s: Seq<char>) -> bool {
    forall|i: int| 0 <= i < s.len() ==> is_space_char(s[i])
}

/// Executable whitespace test for one character.
fn space_char(c: char) -> (r: bool)
    ensures
        r == is_space_char(c),
{
    c == ' ' || c == '\t' || c == '\r' || c == '\n'
}

/// Executable blankness test: true exactly when `s` is empty or all whitespace.
pub fn check_blank(s: &str) -> (r: bool)
    ensures
        r == is_blank(s@),
{
    let n = s.unicode_len();
    let mut i: usize = 0;
    while i < n
        invariant
            i <= n,
            n == s@.len(),
            forall|j: int| 0 <= j < i ==> is_space_char(s@[j]),
        decreases n - i,
    {
        if !space_char(s.get_char(i)) {
            return false;
        }
        i += 1;
    }
    true
}

/// Character-for-character string equality, stated over the views.
pub fn str_eq(a: &str, b: &str) -> (r: bool)
    ensures
        r == (a@ == b@),
{
    let na = a.unicode_len();
    let nb = b.unicode_len();
    if na != nb {
        return false;
    }
    let mut i: usize = 0;
    while i < na
        invariant
            i <= na,
            na == a@.len(),
            na == b@.len(),
            forall|j: int| 0 <= j < i ==> a@[j] == b@[j],
        decreases na - i,
    {
        if a.get_char(i) != b.get_char(i) {
            return false;
        }
        i += 1;
    }
    proof {
        assert(a@ =~= b@);
    }
    true
}

/// One left-to-right scan of `s`, returning the tokens already closed by a
/// separator and the still-open trailing token (empty when none is open).
pub open spec fn scan_tokens(s: Seq<char>) -> (Seq<Seq<char>>, Seq<char>)
    decreases s.len(),
{
    if s.len() == 0 {
        (Seq::empty(), Seq::empty())
    } else {
        let done = scan_tokens(s.drop_last()).0;
        let cur = scan_tokens(s.drop_last()).1;
        let c = s.last();
        if is_space_char(c) {
            if cur.len() == 0 {
                (done, cur)
            } else {
                (done.push(cur), Seq::<char>::empty())
            }
        } else {
            (done, cur.push(c))
        }
    }
}

/// The maximal whitespace-free runs of `s`, in order.
pub open spec fn tokens_of(s: Seq<char>) -> Seq<Seq<char>> {
    if scan_tokens(s).1.len() == 0 {
        scan_tokens(s).0
    } else {
        scan_tokens(s).0.push(scan_tokens(s).1)
    }
}

/// Splits a line at whitespace into its tokens.
pub fn split_ws(line: &str) -> (tokens: Vec<String>)
    ensures
        tokens.deep_view() == tokens_of(line@),
{
    let ghost s = line@;
    let n = line.unicode_len();
    let mut tokens: Vec<String> = Vec::new();
    let mut start: usize = 0;
    let mut i: usize = 0;
    while i < n
        invariant
            start <= i <= n,
            n == s.len(),
            s == line@,
            scan_tokens(s.take(i as int)).0 == tokens.deep_view(),
            scan_tokens(s.take(i as int)).1 == s.subrange(start as int, i as int),
        decreases n - i,
    {
        let ghost done_pre = scan_tokens(s.take(i as int)).0;
        let ghost cur_pre = scan_tokens(s.take(i as int)).1;
        let c = line.get_char(i);
        proof {
            assert(s.take(i + 1 as int).drop_last() =~= s.take(i as int));
            assert(s.take(i + 1 as int).last() == c);
        }
        if space_char(c) {
            if start < i {
                let tok = line.substring_char(start, i);
                tokens.push(String::from_str(tok));
                proof {
                    assert(tokens.deep_view() =~= done_pre.push(cur_pre));
                }
            }
            start = i + 1;
            proof {
                assert(scan_tokens(s.take(i + 1 as int)).1 =~= s.subrange(
                    start as int,
                    i + 1 as int,
                ));
            }
        } else {
            proof {
                assert(scan_tokens(s.take(i + 1 as int)).1 =~= s.subrange(
                    start as int,
                    i + 1 as int,
                ));
            }
        }
        i += 1;
    }
    proof {
        assert(s.take(n as int) =~= s);
    }
    if start < n {
        let tok = line.substring_char(start, n);
        tokens.push(String::from_str(tok));
        proof {
            assert(tokens.deep_view() =~= tokens_of(s));
        }
    }
    tokens
}

/// Index of the first occurrence of `c` at or after `i`, or the length
/// of `s` when there is none.
pub open spec fn char_index_from(s: Seq<char>, c: char, i: int) -> int
    decreases s.len() - i,
{
    if i < 0 || i >= s.len() {
        s.len() as int
    } else if s[i] == c {
        i
    } else {
        char_index_from(s, c, i + 1)
    }
}

/// Index of the first occurrence of a character, or the string's length.
pub fn find_char(s: &str, c: char) -> (d: usize)
    ensures
        d as int == char_index_from(s@, c, 0),
        d <= s@.len(),
        d < s@.len() ==> s@[d as int] == c,
        forall|j: int| 0 <= j < d ==> s@[j] != c,
{
    let n = s.unicode_len();
    let mut i: usize = 0;
    while i < n
        invariant
            i <= n,
            n == s@.len(),
            char_index_from(s@, c, 0) == char_index_from(s@, c, i as int),
            forall|j: int| 0 <= j < i ==> s@[j] != c,
        decreases n - i,
    {
        if s.get_char(i) == c {
            return i;
        }
        i += 1;
    }
    n
}

/// `p` is a prefix of `t`.
pub open spec fn is_prefix(p: Seq<char>, t: Seq<char>) -> bool {
    p.len() <= t.len() && t.take(p.len() as int) == p
}

/// Executable prefix test.
pub fn str_starts_with(t: &str, p: &str) -> (r: bool)
    ensures
        r == is_prefix(p@, t@),
{
    let np = p.unicode_len();
    let nt = t.unicode_len();
    if np > nt {
        return false;
    }
    let mut i: usize = 0;
    while i < np
        invariant
            i <= np <= nt,
            np == p@.len(),
            nt == t@.len(),
            forall|j: int| 0 <= j < i ==> t@[j] == p@[j],
        decreases np - i,
    {
        if t.get_char(i) != p.get_char(i) {
            proof {
                assert(t@.take(p@.len() as int)[i as int] != p@[i as int]);
            }
            return false;
        }
        i += 1;
    }
    proof {
        assert(t@.take(p@.len() as int) =~= p@);
    }
    true
}

/// The decimal digit character of a value below ten.
pub open spec fn digit_char_of(d: int) -> char {
    if d == 0 {
        '0'
    } else if d == 1 {
        '1'
    } else if d == 2 {
        '2'
    } else if d == 3 {
        '3'
    } else if d == 4 {
        '4'
    } else if d == 5 {
        '5'
    } else if d == 6 {
        '6'
    } else if d == 7 {
        '7'
    } else if d == 8 {
        '8'
    } else {
        '9'
    }
}

/// The decimal numeral of a non-negative number, most significant digit
/// first and without leading zeros (zero itself reads "0").
pub open spec fn dec_digits(n: nat) -> Seq<char>
    decreases n,
{
    if n < 10 {
        seq![digit_char_of(n as int)]
    } else {
        dec_digits(n / 10).push(digit_char_of((n % 10) as int))
    }
}

/// The decimal numeral of any number, with a leading minus sign when it
/// is negative.
pub open spec fn int_decimal(n: int) -> Seq<char> {
    if n >= 0 {
        dec_digits(n as nat)
    } else {
        seq!['-'] + dec_digits((-n) as nat)
    }
}

/// One decimal digit as a string.
fn digit_string(d: u32) -> (s: String)
    requires
        d < 10,
    ensures
        s@ == seq![digit_char_of(d as int)],
        s@.len() == 1,
{
    let s = if d == 0 {
        proof {
            reveal_strlit("0");
        }
        String::from_str("0")
    } else if d == 1 {
        proof {
            reveal_strlit("1");
        }
        String::from_str("1")
    } else if d == 2 {
        proof {
            reveal_strlit("2");
        }
        String::from_str("2")
    } else if d == 3 {
        proof {
            reveal_strlit("3");
        }
        String::from_str("3")
    } else if d == 4 {
        proof {
            reveal_strlit("4");
        }
        String::from_str("4")
    } else if d == 5 {
        proof {
            reveal_strlit("5");
        }
        String::from_str("5")
    } else if d == 6 {
        proof {
            reveal_strlit("6");
        }
        String::from_str("6")
    } else if d == 7 {
        proof {
            reveal_strlit("7");
        }
        String::from_str("7")
    } else if d == 8 {
        proof {
            reveal_strlit("8");
        }
        String::from_str("8")
    } else {
        proof {
            reveal_strlit("9");
        }
        String::from_str("9")
    };
    proof {
        assert(s@ =~= seq![digit_char_of(d as int)]);
    }
    s
}

/// Renders a number in decimal.
pub fn u32_decimal(n: u32) -> (s: String)
    ensures
        s@ == dec_digits(n as nat),
    decreases n,
{
    if n < 10 {
        digit_string(n)
    } else {
        let mut s = u32_decimal(n / 10);
        let last = digit_string(n % 10);
        s.append(last.as_str());
        proof {
            assert(s@ =~= dec_digits(n as nat));
        }
        s
    }
}

/// Renders a signed number in decimal, with a minus sign when negative.
pub fn i32_decimal(n: i32) -> (s: String)
    ensures
        s@ == int_decimal(n as int),
{
    if n >= 0 {
        u32_decimal(n as u32)
    } else {
        let wide: i64 = n as i64;
        let magnitude: u32 = (-wide) as u32;
        proof {
            reveal_strlit("-");
        }
        let mut s = String::from_str("-");
        let digits = u32_decimal(magnitude);
        s.append(digits.as_str());
        proof {
            assert(s@ =~= int_decimal(n as int));
        }
        s
    }
}

} // verus!
