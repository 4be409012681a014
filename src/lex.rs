use vstd::prelude::*;
use vstd::string::StrSliceExecFns;

verus! {

/// Whether two strings hold the same characters.
pub fn str_eq(a: &str, b: &str) -> (r: bool)
    ensures
        r == (a@ == b@),
{
    let n = a.unicode_len();
    if n != b.unicode_len() {
        return false;
    }
    let mut i: usize = 0;
    while i < n
        invariant
            n == a@.len(),
            n == b@.len(),
            i <= n,
            forall|j: int| 0 <= j < i ==> a@[j] == b@[j],
        decreases n - i,
    {
        if a.get_char(i) != b.get_char(i) {
            return false;
        }
        i = i + 1;
    }
    assert(a@ =~= b@);
    true
}

pub open spec fn is_digit(c: char) -> bool {
    '0' <= c && c <= '9'
}

/// The value of a run of decimal digits.
pub open spec fn digits_value(s: Seq<char>) -> int
    decreases s.len(),
{
    if s.len() == 0 {
        0
    } else {
        digits_value(s.drop_last()) * 10 + (s.last() as int - '0' as int)
    }
}

pub open spec fn has_sign(s: Seq<char>) -> bool {
    s.len() > 0 && (s[0] == '-' || s[0] == '+')
}

/// The digits of a decimal literal, after its sign if it has one.
pub open spec fn literal_digits(s: Seq<char>) -> Seq<char> {
    if has_sign(s) {
        s.drop_first()
    } else {
        s
    }
}

/// A decimal integer literal: an optional `+` or `-`, then one or more digits.
pub open spec fn is_int_literal(s: Seq<char>) -> bool {
    let d = literal_digits(s);
    d.len() > 0 && forall|i: int| 0 <= i < d.len() ==> is_digit(#[trigger] d[i])
}

/// The value of a decimal integer literal.
pub open spec fn literal_value(s: Seq<char>) -> int {
    if s.len() > 0 && s[0] == '-' {
        -digits_value(literal_digits(s))
    } else {
        digits_value(literal_digits(s))
    }
}

/// Above every value this library reads from a literal.
pub const VALUE_CAP: i64 = 0x1_0000_0000;

/// The value of a decimal literal whose magnitude is below `VALUE_CAP`; `None` for any other text.
pub fn parse_decimal(s: &str) -> (r: Option<i64>)
    ensures
        r is Some <==> is_int_literal(s@) && -VALUE_CAP < literal_value(s@) < VALUE_CAP,
        r matches Some(v) ==> v == literal_value(s@),
{
    let n = s.unicode_len();
    let start: usize = if n > 0 && (s.get_char(0) == '-' || s.get_char(0) == '+') {
        1
    } else {
        0
    };
    let negative = n > 0 && s.get_char(0) == '-';
    if start >= n {
        return None;
    }
    let ghost d = literal_digits(s@);
    assert(d =~= s@.subrange(start as int, n as int));
    let mut acc: i64 = 0;
    let mut i: usize = start;
    while i < n
        invariant
            start <= i <= n,
            n == s@.len(),
            d == s@.subrange(start as int, n as int),
            d == literal_digits(s@),
            forall|j: int| start <= j < i ==> is_digit(#[trigger] s@[j]),
            0 <= acc <= VALUE_CAP,
            acc == (if digits_value(s@.subrange(start as int, i as int)) >= VALUE_CAP {
                VALUE_CAP as int
            } else {
                digits_value(s@.subrange(start as int, i as int))
            }),
        decreases n - i,
    {
        let c = s.get_char(i);
        if !('0' <= c && c <= '9') {
            assert(literal_digits(s@)[(i - start) as int] == c);
            assert(!is_digit(literal_digits(s@)[(i - start) as int]));
            assert(!is_int_literal(s@));
            return None;
        }
        let digit = (c as u32 - '0' as u32) as i64;
        let ghost prev = s@.subrange(start as int, i as int);
        let ghost next = s@.subrange(start as int, i as int + 1);
        assert(next.drop_last() =~= prev);
        assert(digits_value(prev) >= 0) by {
            lemma_digits_value_nonneg(prev);
        }
        if acc >= VALUE_CAP {
            acc = VALUE_CAP;
        } else {
            let v = acc * 10 + digit;
            acc = if v >= VALUE_CAP { VALUE_CAP } else { v };
        }
        i = i + 1;
    }
    assert(s@.subrange(start as int, n as int) =~= d);
    if acc >= VALUE_CAP {
        return None;
    }
    if negative {
        Some(-acc)
    } else {
        Some(acc)
    }
}

pub proof fn lemma_digits_value_nonneg(s: Seq<char>)
    requires
        forall|i: int| 0 <= i < s.len() ==> is_digit(#[trigger] s[i]),
    ensures
        digits_value(s) >= 0,
    decreases s.len(),
{
    if s.len() > 0 {
        assert(is_digit(s[s.len() - 1]));
        lemma_digits_value_nonneg(s.drop_last());
    }
}

/// The characters with the Unicode White_Space property, the whitespace of `char::is_whitespace`,
/// `str::trim` and `str::split_whitespace`.
pub open spec fn white(c: char) -> bool {
    ('\u{9}' <= c && c <= '\u{D}') || c == '\u{20}' || c == '\u{85}' || c == '\u{A0}' || c == '\u{1680}'
        || ('\u{2000}' <= c && c <= '\u{200A}') || c == '\u{2028}' || c == '\u{2029}' || c == '\u{202F}'
        || c == '\u{205F}' || c == '\u{3000}'
}

/// The number of non-whitespace characters from `k` on.
pub open spec fn run_len(l: Seq<char>, k: nat) -> nat
    decreases l.len() - k,
{
    if k >= l.len() || white(l[k as int]) {
        0
    } else {
        1 + run_len(l, k + 1)
    }
}

} // verus!
