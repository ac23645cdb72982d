//! Text the mixer shows: play positions as `mm:ss`.

use vstd::prelude::*;
use vstd::string::*;
use crate::library::{all_digits, digits_value};

verus! {

/// The character of decimal digit `d`.
pub open spec fn digit_char(d: nat) -> char {
    (48 + d) as char
}

/// Decimal text of `n`, without leading zeros.
pub open spec fn decimal(n: nat) -> Seq<char>
    decreases n,
{
    if n < 10 {
        seq![digit_char(n)]
    } else {
        decimal(n / 10).push(digit_char(n % 10))
    }
}

/// Decimal text of `n`, at least two digits (zero-padded).
pub open spec fn two_digits(n: nat) -> Seq<char> {
    if n < 10 {
        seq!['0'] + decimal(n)
    } else {
        decimal(n)
    }
}

/// `m:ss` text of `total` seconds: minutes and seconds, each at least two
/// digits.
pub open spec fn clock_text(total: nat) -> Seq<char> {
    two_digits(total / 60) + seq![':'] + two_digits(total % 60)
}

fn digit_str(d: u64) -> (r: &'static str)
    requires
        d < 10,
    ensures
        r@ == seq![digit_char(d as nat)],
{
    proof {
        reveal_strlit("0");
        reveal_strlit("1");
        reveal_strlit("2");
        reveal_strlit("3");
        reveal_strlit("4");
        reveal_strlit("5");
        reveal_strlit("6");
        reveal_strlit("7");
        reveal_strlit("8");
        reveal_strlit("9");
    }
    let r = if d == 0 {
        "0"
    } else if d == 1 {
        "1"
    } else if d == 2 {
        "2"
    } else if d == 3 {
        "3"
    } else if d == 4 {
        "4"
    } else if d == 5 {
        "5"
    } else if d == 6 {
        "6"
    } else if d == 7 {
        "7"
    } else if d == 8 {
        "8"
    } else {
        "9"
    };
    assert(r@ =~= seq![digit_char(d as nat)]);
    r
}

fn append_decimal(out: &mut String, n: u64)
    ensures
        final(out)@ == old(out)@ + decimal(n as nat),
    decreases n,
{
    if n >= 10 {
        append_decimal(out, n / 10);
    }
    out.append(digit_str(n % 10));
    proof {
        if n >= 10 {
            assert(decimal(n as nat) == decimal((n / 10) as nat).push(digit_char((n % 10) as nat)));
        }
    }
    assert(out@ =~= old(out)@ + decimal(n as nat));
}

/// Decimal text of `n`.
pub fn decimal_text(n: u64) -> (r: String)
    ensures
        r@ == decimal(n as nat),
{
    let mut out = String::new();
    append_decimal(&mut out, n);
    assert(out@ =~= decimal(n as nat));
    out
}

fn append_two_digits(out: &mut String, n: u64)
    ensures
        final(out)@ == old(out)@ + two_digits(n as nat),
{
    if n < 10 {
        proof {
            reveal_strlit("0");
        }
        out.append("0");
    }
    append_decimal(out, n);
    assert(out@ =~= old(out)@ + two_digits(n as nat));
}

/// `mm:ss` text of a play position of `total_secs` whole seconds (minutes
/// are not wrapped into hours).
pub fn clock(total_secs: u64) -> (r: String)
    ensures
        r@ == clock_text(total_secs as nat),
{
    let mut out = String::new();
    append_two_digits(&mut out, total_secs / 60);
    proof {
        reveal_strlit(":");
    }
    out.append(":");
    append_two_digits(&mut out, total_secs % 60);
    assert(out@ =~= clock_text(total_secs as nat));
    out
}

/// Decimal text reads back as its number: only digits, and no leading zero
/// unless the number is 0.
pub proof fn law_decimal_reads_back(n: nat)
    ensures
        all_digits(decimal(n)),
        digits_value(decimal(n)) == n,
        decimal(n).len() > 1 ==> decimal(n)[0] != '0',
    decreases n,
{
    lemma_digit_char_value((n % 10) as nat);
    if n >= 10 {
        law_decimal_reads_back(n / 10);
        let d = decimal(n);
        assert(d.drop_last() =~= decimal(n / 10));
        assert(d[0] == decimal(n / 10)[0]);
        assert(n == (n / 10) * 10 + n % 10);
        assert(d == decimal(n / 10).push(digit_char((n % 10) as nat)));
        assert(d.last() == digit_char((n % 10) as nat));
        assert(digits_value(d) == digits_value(d.drop_last()) * 10 + (d.last() as int - '0' as int));
        assert(digits_value(d) == n);
        if n / 10 < 10 {
            lemma_digit_char_value(n / 10);
            assert(decimal(n / 10) == seq![digit_char(n / 10)]);
        }
        lemma_decimal_len(n / 10);
        if n / 10 < 10 {
            assert(d[0] == digit_char(n / 10));
            assert(('0' as int) == 48);
        }
        assert(d[0] != '0');
    } else {
        let d = decimal(n);
        assert(d == seq![digit_char(n)]);
        assert(d.drop_last() =~= Seq::<char>::empty());
        assert(digits_value(d) == digits_value(d.drop_last()) * 10 + (d.last() as int - '0' as int));
        assert(n % 10 == n);
    }
}

proof fn lemma_decimal_len(n: nat)
    ensures
        decimal(n).len() >= 1,
        n >= 10 ==> decimal(n).len() >= 2,
    decreases n,
{
    if n >= 10 {
        lemma_decimal_len(n / 10);
    }
}

proof fn lemma_digit_char_value(d: nat)
    requires
        d < 10,
    ensures
        digit_char(d) as int == 48 + d,
        '0' <= digit_char(d) <= '9',
{
    assert(((48 + d) as char) as int == 48 + d);
}

/// A leading zero does not change the value of a digit string.
proof fn lemma_leading_zero(s: Seq<char>)
    ensures
        digits_value(seq!['0'] + s) == digits_value(s),
    decreases s.len(),
{
    if s.len() > 0 {
        lemma_leading_zero(s.drop_last());
        assert((seq!['0'] + s).drop_last() =~= seq!['0'] + s.drop_last());
        assert((seq!['0'] + s).last() == s.last());
        let z = seq!['0'] + s;
        assert(digits_value(z) == digits_value(z.drop_last()) * 10 + (z.last() as int - '0' as int));
        assert(digits_value(s) == digits_value(s.drop_last()) * 10 + (s.last() as int - '0' as int));
        assert(digits_value(z.drop_last()) == digits_value(s.drop_last()));
        assert(digits_value(z) == digits_value(s));
    } else {
        let z = seq!['0'] + s;
        assert(z.drop_last() =~= Seq::<char>::empty());
        assert(digits_value(z.drop_last()) == 0);
        assert(z.last() == '0');
        assert(digits_value(z) == 0);
        assert(digits_value(s) == 0);
    }
}

/// The clock text reads back as the position: minutes (at least two
/// digits), a colon, then two digits of seconds below 60, with
/// `minutes * 60 + seconds` the total number of seconds.
pub proof fn law_clock_reads_back(total: nat)
    ensures
        ({
            let t = clock_text(total);
            let m = t.subrange(0, t.len() - 3);
            let sec = t.subrange(t.len() - 2, t.len() as int);
            &&& t.len() >= 5
            &&& t[t.len() - 3] == ':'
            &&& all_digits(m)
            &&& m.len() >= 2
            &&& all_digits(sec)
            &&& digits_value(sec) < 60
            &&& digits_value(m) * 60 + digits_value(sec) == total
        }),
{
    let mins = total / 60;
    let secs = total % 60;
    law_decimal_reads_back(mins);
    law_decimal_reads_back(secs);
    lemma_leading_zero(decimal(mins));
    lemma_leading_zero(decimal(secs));
    let tm = two_digits(mins);
    let ts = two_digits(secs);
    assert(ts.len() == 2) by {
        if secs >= 10 {
            law_decimal_reads_back(secs / 10);
            assert(decimal(secs / 10) == seq![digit_char(secs / 10)]);
        }
    }
    assert(tm.len() >= 2) by {
        if mins >= 10 {
            assert(decimal(mins).len() == decimal(mins / 10).len() + 1);
            assert(decimal(mins / 10).len() >= 1) by {
                if mins / 10 >= 10 {
                    assert(decimal(mins / 10).len() == decimal(mins / 100).len() + 1);
                }
            }
        }
    }
    assert(all_digits(tm));
    assert(all_digits(ts));
    let t = clock_text(total);
    assert(t =~= tm + seq![':'] + ts);
    assert(t.subrange(0, t.len() - 3) =~= tm);
    assert(t.subrange(t.len() - 2, t.len() as int) =~= ts);
}

} // verus!
