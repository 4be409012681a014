use vstd::prelude::*;
use vstd::string::StringExecFns;

verus! {

/// The character for a decimal digit `d` (0 to 9).
pub open spec fn digit_char(d: int) -> char {
    seq!['0', '1', '2', '3', '4', '5', '6', '7', '8', '9'][d]
}

/// Decimal rendering of a natural number, most significant digit first, no leading zeros.
pub open spec fn nat_text(n: nat) -> Seq<char>
    decreases n,
{
    if n < 10 {
        seq![digit_char(n as int)]
    } else {
        nat_text(n / 10) + seq![digit_char((n % 10) as int)]
    }
}

/// Decimal rendering of an integer, with a leading `-` when negative.
pub open spec fn int_text(v: int) -> Seq<char> {
    if v < 0 {
        seq!['-'] + nat_text((-v) as nat)
    } else {
        nat_text(v as nat)
    }
}

pub proof fn lemma_nat_text_len(n: nat)
    ensures
        nat_text(n).len() >= 1,
        n < 10 <==> nat_text(n).len() == 1,
    decreases n,
{
    if n >= 10 {
        lemma_nat_text_len(n / 10);
    }
}

/// Two numbers with the same decimal rendering are equal.
pub proof fn lemma_nat_text_injective(a: nat, b: nat)
    requires
        nat_text(a) == nat_text(b),
    ensures
        a == b,
    decreases a,
{
    lemma_nat_text_len(a);
    lemma_nat_text_len(b);
    let digits = seq!['0', '1', '2', '3', '4', '5', '6', '7', '8', '9'];
    if a < 10 {
        assert(b < 10);
        assert(nat_text(a) == seq![digit_char(a as int)]);
        assert(nat_text(b) == seq![digit_char(b as int)]);
        assert(seq![digit_char(a as int)][0] == digit_char(a as int));
        assert(seq![digit_char(b as int)][0] == digit_char(b as int));
        assert(digit_char(a as int) == digit_char(b as int));
        assert(digits[0] == '0' && digits[1] == '1' && digits[2] == '2' && digits[3] == '3'
            && digits[4] == '4' && digits[5] == '5' && digits[6] == '6' && digits[7] == '7'
            && digits[8] == '8' && digits[9] == '9');
        assert(digits[a as int] == digits[b as int]);
    } else {
        let ta = nat_text(a);
        let tb = nat_text(b);
        let n = ta.len();
        assert(ta[n - 1] == tb[n - 1]);
        assert(ta[n - 1] == digit_char((a % 10) as int));
        assert(tb[n - 1] == digit_char((b % 10) as int));
        assert(a % 10 == b % 10);
        assert(ta.drop_last() =~= nat_text(a / 10));
        assert(tb.drop_last() =~= nat_text(b / 10));
        lemma_nat_text_injective(a / 10, b / 10);
    }
}

fn digit_str(d: u64) -> (r: &'static str)
    requires
        d < 10,
    ensures
        r@ == seq![digit_char(d as int)],
{
    proof {
        reveal_strlit("0");
        reveal_strlit("1");
        reveal_strlit("2");
        reveal_strlit("3");
        reveal_strlit("4");
        reveal_strlit("5");
        reveal_strlit("6");
        reveal_strlit("7");
        reveal_strlit("8");
        reveal_strlit("9");
    }
    match d {
        0 => "0",
        1 => "1",
        2 => "2",
        3 => "3",
        4 => "4",
        5 => "5",
        6 => "6",
        7 => "7",
        8 => "8",
        _ => "9",
    }
}

/// Appends the decimal rendering of `n` to `out`.
pub fn append_nat(out: &mut String, n: u64)
    ensures
        final(out)@ == old(out)@ + nat_text(n as nat),
    decreases n,
{
    if n >= 10 {
        append_nat(out, n / 10);
    }
    let d = digit_str(n % 10);
    out.append(d);
    assert(final(out)@ =~= old(out)@ + nat_text(n as nat));
}

/// Appends the decimal rendering of `v`, signed, to `out`.
pub fn append_int(out: &mut String, v: i16)
    ensures
        final(out)@ == old(out)@ + int_text(v as int),
{
    if v < 0 {
        out.append("-");
        proof { reveal_strlit("-"); }
        let m: i32 = -(v as i32);
        append_nat(out, m as u64);
        assert(final(out)@ =~= old(out)@ + int_text(v as int));
    } else {
        append_nat(out, v as u64);
    }
}

} // verus!
