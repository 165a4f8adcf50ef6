//! Text put together piece by piece, with every piece stated.

use vstd::prelude::*;
use vstd::string::StringExecFns;
use vstd::string::StrSliceExecFns;

verus! {

/// One digit, in upper case above nine.
pub open spec fn digit(d: int) -> Seq<char> {
    if d == 0 {
        "0"@
    } else if d == 1 {
        "1"@
    } else if d == 2 {
        "2"@
    } else if d == 3 {
        "3"@
    } else if d == 4 {
        "4"@
    } else if d == 5 {
        "5"@
    } else if d == 6 {
        "6"@
    } else if d == 7 {
        "7"@
    } else if d == 8 {
        "8"@
    } else if d == 9 {
        "9"@
    } else if d == 10 {
        "A"@
    } else if d == 11 {
        "B"@
    } else if d == 12 {
        "C"@
    } else if d == 13 {
        "D"@
    } else if d == 14 {
        "E"@
    } else {
        "F"@
    }
}

/// A number in some base, without leading zeros.
pub open spec fn number(n: nat, base: nat) -> Seq<char>
    decreases n,
    when base >= 2
{
    if n < base {
        digit(n as int)
    } else {
        proof {
            assert(n / base < n) by (nonlinear_arith)
                requires
                    n >= base,
                    base >= 2,
            ;
        }
        number(n / base, base) + digit((n % base) as int)
    }
}

/// The lowest `width` digits of a number in some base, leading zeros and all.
pub open spec fn digits(n: nat, base: nat, width: nat) -> Seq<char>
    decreases width,
{
    if width == 0 {
        Seq::empty()
    } else {
        digits(n / base, base, (width - 1) as nat) + digit((n % base) as int)
    }
}

/// A truth value.
pub open spec fn truth(b: bool) -> Seq<char> {
    if b { "true"@ } else { "false"@ }
}

pub fn push_str(out: &mut String, s: &str)
    ensures
        final(out)@ == old(out)@ + s@,
{
    out.append(s);
}

pub fn push_digit(out: &mut String, d: u64)
    requires
        d < 16,
    ensures
        final(out)@ == old(out)@ + digit(d as int),
{
    let s = match d {
        0 => "0",
        1 => "1",
        2 => "2",
        3 => "3",
        4 => "4",
        5 => "5",
        6 => "6",
        7 => "7",
        8 => "8",
        9 => "9",
        10 => "A",
        11 => "B",
        12 => "C",
        13 => "D",
        14 => "E",
        _ => "F",
    };
    out.append(s);
}

/// Append a number without leading zeros.
pub fn push_number(out: &mut String, n: u64, base: u64)
    requires
        2 <= base <= 16,
    ensures
        final(out)@ == old(out)@ + number(n as nat, base as nat),
    decreases n,
{
    if n >= base {
        assert(n / base < n) by (nonlinear_arith)
            requires
                n >= base,
                base >= 2,
        ;
        push_number(out, n / base, base);
        let last: u64 = n % base;
        push_digit(out, last);
    } else {
        push_digit(out, n);
    }
    assert(out@ =~= old(out)@ + number(n as nat, base as nat));
}

/// Append exactly `width` digits.
pub fn push_digits(out: &mut String, n: u64, base: u64, width: u32)
    requires
        2 <= base <= 16,
    ensures
        final(out)@ == old(out)@ + digits(n as nat, base as nat, width as nat),
    decreases width,
{
    if width > 0 {
        push_digits(out, n / base, base, width - 1);
        let last: u64 = n % base;
        push_digit(out, last);
    }
    assert(out@ =~= old(out)@ + digits(n as nat, base as nat, width as nat));
}

pub fn push_truth(out: &mut String, b: bool)
    ensures
        final(out)@ == old(out)@ + truth(b),
{
    out.append(if b { "true" } else { "false" });
}

/// Text without the zeros and spaces that pad its end.
pub open spec fn trimmed(s: Seq<char>) -> Seq<char>
    decreases s.len(),
{
    if s.len() > 0 && (s.last() == '\0' || s.last() == ' ') {
        trimmed(s.drop_last())
    } else {
        s
    }
}

/// Cut the zeros and spaces that pad the end of a text.
pub fn trim_padding(text: &str) -> (r: String)
    ensures
        r@ == trimmed(text@),
{
    let mut n = text.unicode_len();
    assert(text@.take(n as int) =~= text@);
    while n > 0
        invariant
            n <= text@.len(),
            trimmed(text@.take(n as int)) == trimmed(text@),
        ensures
            n <= text@.len(),
            trimmed(text@) == text@.take(n as int),
        decreases n,
    {
        let last = text.get_char(n - 1);
        assert(text@.take(n as int).last() == last);
        if last != '\0' && last != ' ' {
            break;
        }
        assert(text@.take(n as int).drop_last() =~= text@.take(n - 1));
        n = n - 1;
    }
    if n == 0 {
        assert(text@.take(0) =~= Seq::empty());
        return String::new();
    }
    let kept = text.substring_char(0, n);
    assert(text@.subrange(0, n as int) =~= text@.take(n as int));
    kept.to_owned()
}

/// What is left of a trimmed text does not end in padding, and is how the text begins.
pub proof fn law_trimming(s: Seq<char>)
    ensures
        trimmed(s).len() <= s.len(),
        trimmed(s) == s.take(trimmed(s).len() as int),
        trimmed(s).len() > 0 ==> trimmed(s).last() != '\0' && trimmed(s).last() != ' ',
        trimmed(trimmed(s)) == trimmed(s),
    decreases s.len(),
{
    if s.len() > 0 && (s.last() == '\0' || s.last() == ' ') {
        law_trimming(s.drop_last());
        assert(s.take(trimmed(s).len() as int) =~= s.drop_last().take(trimmed(s).len() as int));
    } else {
        assert(s.take(s.len() as int) =~= s);
    }
}

/// What a digit counts for.
pub open spec fn worth(c: char) -> int {
    if '0' <= c && c <= '9' {
        c as int - '0' as int
    } else {
        c as int - 'A' as int + 10
    }
}

/// What a row of digits stands for in some base, the last one counting single.
pub open spec fn value_of(text: Seq<char>, base: int) -> int
    decreases text.len(),
{
    if text.len() == 0 {
        0
    } else {
        base * value_of(text.drop_last(), base) + worth(text.last())
    }
}

proof fn lemma_digit(d: int)
    requires
        0 <= d < 16,
    ensures
        digit(d).len() == 1,
        worth(digit(d)[0]) == d,
{
    reveal_strlit("0");
    reveal_strlit("1");
    reveal_strlit("2");
    reveal_strlit("3");
    reveal_strlit("4");
    reveal_strlit("5");
    reveal_strlit("6");
    reveal_strlit("7");
    reveal_strlit("8");
    reveal_strlit("9");
    reveal_strlit("A");
    reveal_strlit("B");
    reveal_strlit("C");
    reveal_strlit("D");
    reveal_strlit("E");
    reveal_strlit("F");
}

/// A digit put behind others.
proof fn lemma_one_more_digit(text: Seq<char>, d: int, base: int)
    requires
        0 <= d < 16,
    ensures
        value_of(text + digit(d), base) == base * value_of(text, base) + d,
{
    lemma_digit(d);
    let longer = text + digit(d);
    assert(longer.drop_last() =~= text);
    assert(longer.last() == digit(d)[0]);
}

/// A number that is written out stands for itself, and has no zero in front unless it is zero.
pub proof fn law_numbers_read_back(n: nat, base: nat)
    requires
        2 <= base <= 16,
    ensures
        value_of(number(n, base), base as int) == n,
        number(n, base).len() >= 1,
        n > 0 ==> worth(number(n, base)[0]) != 0,
    decreases n,
{
    if n < base {
        lemma_digit(n as int);
        lemma_one_more_digit(Seq::empty(), n as int, base as int);
        assert(Seq::<char>::empty() + digit(n as int) =~= digit(n as int));
        assert(base * 0 == 0);
    } else {
        assert(n / base < n && n / base >= 1) by (nonlinear_arith)
            requires
                n >= base,
                base >= 2,
        ;
        law_numbers_read_back(n / base, base);
        vstd::arithmetic::div_mod::lemma_fundamental_div_mod(n as int, base as int);
        vstd::arithmetic::div_mod::lemma_mod_bound(n as int, base as int);
        lemma_one_more_digit(number(n / base, base), (n % base) as int, base as int);
    }
}

/// A number written in a fixed width has that many digits, and stands for itself where it fits.
pub proof fn law_digits_read_back(n: nat, base: nat, width: nat)
    requires
        2 <= base <= 16,
        n < vstd::arithmetic::power::pow(base as int, width),
    ensures
        value_of(digits(n, base, width), base as int) == n,
        digits(n, base, width).len() == width,
    decreases width,
{
    vstd::arithmetic::power::lemma_pow0(base as int);
    if width > 0 {
        let rest = vstd::arithmetic::power::pow(base as int, (width - 1) as nat);
        assert(vstd::arithmetic::power::pow(base as int, width) == base * rest) by {
            reveal(vstd::arithmetic::power::pow);
        }
        vstd::arithmetic::div_mod::lemma_fundamental_div_mod(n as int, base as int);
        vstd::arithmetic::div_mod::lemma_mod_bound(n as int, base as int);
        assert(n / base < rest) by (nonlinear_arith)
            requires
                n < base * rest,
                n == base * (n / base) + n % base,
                0 <= n % base,
                base >= 2,
        ;
        law_digits_read_back(n / base, base, (width - 1) as nat);
        lemma_one_more_digit(
            digits(n / base, base, (width - 1) as nat),
            (n % base) as int,
            base as int,
        );
        lemma_digit((n % base) as int);
    }
}

} // verus!
