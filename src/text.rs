//! Decimal rendering of integers and fixed-point values, and label-value escaping,
//! as used by the scrape format.
use vstd::prelude::*;
use vstd::string::*;

verus! {

/// The ASCII digit of `d` (taken modulo 10).
pub open spec fn digit_char(d: nat) -> char {
    let d = d % 10;
    if d == 0 { '0' }
    else if d == 1 { '1' }
    else if d == 2 { '2' }
    else if d == 3 { '3' }
    else if d == 4 { '4' }
    else if d == 5 { '5' }
    else if d == 6 { '6' }
    else if d == 7 { '7' }
    else if d == 8 { '8' }
    else { '9' }
}

/// Decimal digits of `n`, without leading zeros ("0" for zero).
pub open spec fn digits(n: nat) -> Seq<char>
    decreases n,
{
    if n < 10 {
        seq![digit_char(n)]
    } else {
        digits(n / 10) + seq![digit_char(n % 10)]
    }
}

/// The last `width` decimal digits of `n`, padded on the left with zeros.
pub open spec fn padded_digits(n: nat, width: nat) -> Seq<char>
    decreases width,
{
    if width == 0 {
        Seq::empty()
    } else {
        padded_digits(n / 10, (width - 1) as nat) + seq![digit_char(n % 10)]
    }
}

pub open spec fn pow10(e: nat) -> nat
    decreases e,
{
    if e == 0 { 1 } else { 10 * pow10((e - 1) as nat) }
}

/// Decimal text of the number `units / 10^scale`, with no trailing zeros after the
/// point and no point at all for a whole number ("0.25", "10", "0").
pub open spec fn fixed_text(units: nat, scale: nat) -> Seq<char>
    decreases scale,
{
    if scale == 0 {
        digits(units)
    } else if units % 10 == 0 {
        fixed_text(units / 10, (scale - 1) as nat)
    } else {
        digits(units / pow10(scale)) + seq!['.'] + padded_digits(units % pow10(scale), scale)
    }
}

/// How one character of a label value is written: backslash, double quote and
/// line feed are escaped, everything else stands as it is.
pub open spec fn escape_char(c: char) -> Seq<char> {
    if c == '\\' {
        seq!['\\', '\\']
    } else if c == '"' {
        seq!['\\', '"']
    } else if c == '\n' {
        seq!['\\', 'n']
    } else {
        seq![c]
    }
}

pub open spec fn escaped(s: Seq<char>) -> Seq<char>
    decreases s.len(),
{
    if s.len() == 0 {
        Seq::empty()
    } else {
        escaped(s.drop_last()) + escape_char(s.last())
    }
}

fn digit_str(d: u64) -> (r: &'static str)
    requires
        d < 10,
    ensures
        r@ == seq![digit_char(d as nat)],
{
    proof {
        reveal_strlit("0");
        reveal_strlit("1");
        reveal_strlit("2");
        reveal_strlit("3");
        reveal_strlit("4");
        reveal_strlit("5");
        reveal_strlit("6");
        reveal_strlit("7");
        reveal_strlit("8");
        reveal_strlit("9");
    }
    if d == 0 { "0" }
    else if d == 1 { "1" }
    else if d == 2 { "2" }
    else if d == 3 { "3" }
    else if d == 4 { "4" }
    else if d == 5 { "5" }
    else if d == 6 { "6" }
    else if d == 7 { "7" }
    else if d == 8 { "8" }
    else { "9" }
}

/// Appends the decimal digits of `n`.
pub fn push_digits(out: &mut String, n: u64)
    ensures
        final(out)@ == old(out)@ + digits(n as nat),
    decreases n,
{
    if n >= 10 {
        push_digits(out, n / 10);
    }
    out.append(digit_str(n % 10));
    proof {
        assert(old(out)@ + digits(n as nat) =~= final(out)@);
    }
}

fn push_padded_digits(out: &mut String, n: u64, width: u32)
    ensures
        final(out)@ == old(out)@ + padded_digits(n as nat, width as nat),
    decreases width,
{
    if width > 0 {
        push_padded_digits(out, n / 10, width - 1);
        out.append(digit_str(n % 10));
        proof {
            assert(old(out)@ + padded_digits(n as nat, width as nat) =~= final(out)@);
        }
    }
}

/// The largest scale whose power of ten fits in a `u64`.
pub const MAX_SCALE: u32 = 19;

fn pow10_exec(e: u32) -> (r: u64)
    requires
        e <= MAX_SCALE,
    ensures
        r == pow10(e as nat),
        r >= 1,
    decreases e,
{
    if e == 0 {
        1
    } else {
        let p = pow10_exec(e - 1);
        proof {
            lemma_pow10_bound((e - 1) as nat);
        }
        10 * p
    }
}

proof fn lemma_pow10_bound(e: nat)
    requires
        e < 19,
    ensures
        pow10(e) <= 1_000_000_000_000_000_000,
    decreases e,
{
    if e > 0 {
        lemma_pow10_bound((e - 1) as nat);
    }
    reveal_with_fuel(pow10, 19);
}

/// Appends the decimal text of `units / 10^scale`.
pub fn push_fixed(out: &mut String, units: u64, scale: u32)
    requires
        scale <= MAX_SCALE,
    ensures
        final(out)@ == old(out)@ + fixed_text(units as nat, scale as nat),
{
    let mut u: u64 = units;
    let mut s: u32 = scale;
    while s > 0 && u % 10 == 0
        invariant
            s <= scale <= MAX_SCALE,
            fixed_text(u as nat, s as nat) == fixed_text(units as nat, scale as nat),
        decreases s,
    {
        u = u / 10;
        s = s - 1;
    }
    if s == 0 {
        push_digits(out, u);
    } else {
        let p = pow10_exec(s);
        push_digits(out, u / p);
        out.append(".");
        proof {
            reveal_strlit(".");
        }
        push_padded_digits(out, u % p, s);
        proof {
            assert(final(out)@ =~= old(out)@ + fixed_text(units as nat, scale as nat));
        }
    }
}

/// `thousandths / 100`, rounded to the nearest integer; a tie (last two digits 50)
/// rounds up.
pub open spec fn rounded_tenths(thousandths: u64) -> nat {
    (thousandths / 100) as nat + if thousandths % 100 >= 50 { 1nat } else { 0nat }
}

/// The number `thousandths / 1000` with exactly one digit after the point, rounded
/// to tenths as `rounded_tenths` does ("0.0", "12.8").
pub open spec fn one_decimal_text(thousandths: u64) -> Seq<char> {
    let t = rounded_tenths(thousandths);
    digits(t / 10) + seq!['.', digit_char(t % 10)]
}

/// Appends the value of `thousandths / 1000` with exactly one decimal.
pub fn push_one_decimal(out: &mut String, thousandths: u64)
    ensures
        final(out)@ == old(out)@ + one_decimal_text(thousandths),
{
    let t: u64 = thousandths / 100 + if thousandths % 100 >= 50 { 1 } else { 0 };
    push_digits(out, t / 10);
    out.append(".");
    out.append(digit_str(t % 10));
    proof {
        reveal_strlit(".");
        assert(final(out)@ =~= old(out)@ + one_decimal_text(thousandths));
    }
}

/// Appends `s` with backslash, double quote and line feed escaped.
pub fn push_escaped(out: &mut String, s: &String)
    ensures
        final(out)@ == old(out)@ + escaped(s@),
{
    let ghost start = out@;
    let n = s.as_str().unicode_len();
    let mut i: usize = 0;
    while i < n
        invariant
            n == s@.len(),
            i <= n,
            out@ == start + escaped(s@.subrange(0, i as int)),
        decreases n - i,
    {
        let c = s.as_str().get_char(i);
        let ghost before = out@;
        proof {
            reveal_strlit("\\\\");
            reveal_strlit("\\\"");
            reveal_strlit("\\n");
        }
        if c == '\\' {
            out.append("\\\\");
        } else if c == '"' {
            out.append("\\\"");
        } else if c == '\n' {
            out.append("\\n");
        } else {
            out.append(s.as_str().substring_char(i, i + 1));
        }
        proof {
            let prefix = s@.subrange(0, i + 1);
            assert(prefix.drop_last() =~= s@.subrange(0, i as int));
            assert(prefix.last() == c);
            assert(s@.subrange(i as int, i + 1) =~= seq![c]);
            assert(out@ =~= before + escape_char(c));
            assert(escaped(prefix) == escaped(s@.subrange(0, i as int)) + escape_char(c));
        }
        i = i + 1;
        proof {
            assert(out@ =~= start + escaped(s@.subrange(0, i as int)));
        }
    }
    proof {
        assert(s@.subrange(0, n as int) =~= s@);
    }
}

} // verus!
