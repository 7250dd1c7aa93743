//! Positional notation for numbers: the digits the library prints codes and
//! values with, and the proofs that those digits read back as the number.

use vstd::prelude::*;

verus! {

/// The character of digit `d` (below 16), lower- or upper-case above 9.
pub open spec fn digit_char(d: int, upper: bool) -> char {
    if d < 10 {
        (d + 48) as char
    } else if upper {
        (d + 55) as char
    } else {
        (d + 87) as char
    }
}

/// The digits of `n` in base `base` (2 to 16), most significant first,
/// with no leading zeros (zero is the single digit `0`).
pub open spec fn digits(n: nat, base: nat, upper: bool) -> Seq<char>
    decreases n,
{
    if base < 2 || n < base {
        seq![digit_char(n as int, upper)]
    } else {
        proof {
            assert(n / base < n) by (nonlinear_arith)
                requires
                    base >= 2,
                    n >= base,
            ;
        }
        digits(n / base, base, upper).push(digit_char((n % base) as int, upper))
    }
}

/// Lower-case hexadecimal digits of `n`, as `{:x}` prints them.
pub open spec fn lower_hex(n: nat) -> Seq<char> {
    digits(n, 16, false)
}

/// Upper-case hexadecimal digits of `n`, as `{:X}` prints them.
pub open spec fn upper_hex(n: nat) -> Seq<char> {
    digits(n, 16, true)
}

/// Decimal digits of `n`, as `{}` prints an unsigned number.
pub open spec fn decimal(n: nat) -> Seq<char> {
    digits(n, 10, false)
}

/// Decimal form of a signed number, with a leading `-` when it is negative.
pub open spec fn signed_decimal(v: int) -> Seq<char> {
    if v < 0 {
        seq!['-'] + decimal((-v) as nat)
    } else {
        decimal(v as nat)
    }
}

/// The number a digit character stands for: `0`-`9`, then `a`-`z` or
/// `A`-`Z` for ten and above; -1 for any other character.
pub open spec fn digit_value(c: char) -> int {
    let x = c as int;
    if 48 <= x <= 57 {
        x - 48
    } else if 97 <= x <= 122 {
        x - 87
    } else if 65 <= x <= 90 {
        x - 55
    } else {
        -1
    }
}

/// The number that a string of digits in `base` reads as, most significant
/// digit first.
pub open spec fn read_digits(s: Seq<char>, base: nat) -> int
    decreases s.len(),
{
    if s.len() == 0 {
        0
    } else {
        read_digits(s.drop_last(), base) * base + digit_value(s.last())
    }
}

/// Every character of `s` is a digit of `base`.
pub open spec fn all_digits(s: Seq<char>, base: nat) -> bool {
    forall|i: int| 0 <= i < s.len() ==> 0 <= #[trigger] digit_value(s[i]) < base
}

/// The digits of a number read back as that number: they are all digits of
/// the base, none is missing, and the first is `0` only for zero itself.
pub proof fn lemma_digits_read_back(n: nat, base: nat, upper: bool)
    requires
        2 <= base <= 16,
    ensures
        read_digits(digits(n, base, upper), base) == n,
        all_digits(digits(n, base, upper), base),
        digits(n, base, upper).len() >= 1,
        digit_value(digits(n, base, upper)[0]) == 0 ==> n == 0,
    decreases n,
{
    let d = digits(n, base, upper);
    if n < base {
        assert(digit_value(digit_char(n as int, upper)) == n);
        assert(d.drop_last() =~= Seq::<char>::empty());
        assert(read_digits(d, base) == read_digits(d.drop_last(), base) * base + digit_value(d.last()));
    } else {
        assert(n / base < n) by (nonlinear_arith)
            requires
                base >= 2,
                n >= base,
        ;
        assert(n / base >= 1) by (nonlinear_arith)
            requires
                base >= 2,
                n >= base,
        ;
        lemma_digits_read_back(n / base, base, upper);
        let r = (n % base) as int;
        assert(0 <= r < base) by (nonlinear_arith)
            requires
                base >= 2,
                r == n % base,
        ;
        assert(digit_value(digit_char(r, upper)) == r);
        assert(d.drop_last() =~= digits(n / base, base, upper));
        assert(n == (n / base) * base + n % base) by (nonlinear_arith)
            requires
                base >= 2,
        ;
        assert(d[0] == digits(n / base, base, upper)[0]);
        assert(d.last() == digit_char(r, upper));
        assert(read_digits(d, base) == read_digits(d.drop_last(), base) * base + digit_value(d.last()));
        assert(read_digits(d, base) == (n / base) as int * base + r);
        assert forall|i: int| 0 <= i < d.len() implies 0 <= #[trigger] digit_value(d[i]) < base by {
            if i < d.len() - 1 {
                assert(d[i] == digits(n / base, base, upper)[i]);
            }
        }
    }
}

/// Each character of the digits of `n` is the character of some digit below
/// the base.
proof fn lemma_digits_are_digit_chars(n: nat, base: nat, upper: bool)
    requires
        2 <= base <= 16,
    ensures
        forall|i: int|
            0 <= i < digits(n, base, upper).len() ==> exists|d: int|
                0 <= d < base && #[trigger] digits(n, base, upper)[i] == digit_char(d, upper),
    decreases n,
{
    let s = digits(n, base, upper);
    if n < base {
        assert(s[0] == digit_char(n as int, upper));
    } else {
        assert(n / base < n) by (nonlinear_arith)
            requires
                base >= 2,
                n >= base,
        ;
        lemma_digits_are_digit_chars(n / base, base, upper);
        let prefix = digits(n / base, base, upper);
        let r = (n % base) as int;
        assert(0 <= r < base) by (nonlinear_arith)
            requires
                base >= 2,
                r == n % base,
        ;
        assert forall|i: int| 0 <= i < s.len() implies exists|d: int|
            0 <= d < base && #[trigger] s[i] == digit_char(d, upper) by {
            if i < s.len() - 1 {
                assert(s[i] == prefix[i]);
            } else {
                assert(s[i] == digit_char(r, upper));
            }
        }
    }
}

/// `{:x}` prints only `0`-`9` and lower-case `a`-`f`, with no leading zero,
/// and the digits read back as the number.
pub proof fn lemma_lower_hex_is_lower_case(n: nat)
    ensures
        forall|i: int|
            0 <= i < lower_hex(n).len() ==> ('0' <= #[trigger] lower_hex(n)[i] && lower_hex(n)[i]
                <= '9') || ('a' <= lower_hex(n)[i] && lower_hex(n)[i] <= 'f'),
        read_digits(lower_hex(n), 16) == n,
        lower_hex(n).len() >= 1,
        lower_hex(n)[0] == '0' ==> n == 0,
{
    lemma_digits_are_digit_chars(n, 16, false);
    lemma_digits_read_back(n, 16, false);
    assert forall|i: int| 0 <= i < lower_hex(n).len() implies ('0' <= #[trigger] lower_hex(n)[i]
        && lower_hex(n)[i] <= '9') || ('a' <= lower_hex(n)[i] && lower_hex(n)[i] <= 'f') by {
        let d = choose|d: int| 0 <= d < 16 && lower_hex(n)[i] == digit_char(d, false);
        assert(0 <= d < 16 && lower_hex(n)[i] == digit_char(d, false));
    }
}

/// `{:X}` prints only `0`-`9` and upper-case `A`-`F`, with no leading zero,
/// and the digits read back as the number.
pub proof fn lemma_upper_hex_is_upper_case(n: nat)
    ensures
        forall|i: int|
            0 <= i < upper_hex(n).len() ==> ('0' <= #[trigger] upper_hex(n)[i] && upper_hex(n)[i]
                <= '9') || ('A' <= upper_hex(n)[i] && upper_hex(n)[i] <= 'F'),
        read_digits(upper_hex(n), 16) == n,
        upper_hex(n).len() >= 1,
        upper_hex(n)[0] == '0' ==> n == 0,
{
    lemma_digits_are_digit_chars(n, 16, true);
    lemma_digits_read_back(n, 16, true);
    assert forall|i: int| 0 <= i < upper_hex(n).len() implies ('0' <= #[trigger] upper_hex(n)[i]
        && upper_hex(n)[i] <= '9') || ('A' <= upper_hex(n)[i] && upper_hex(n)[i] <= 'F') by {
        let d = choose|d: int| 0 <= d < 16 && upper_hex(n)[i] == digit_char(d, true);
        assert(0 <= d < 16 && upper_hex(n)[i] == digit_char(d, true));
    }
}

/// `{}` prints an unsigned number with `0`-`9` only, with no leading zero,
/// and the digits read back as the number.
pub proof fn lemma_decimal_digits(n: nat)
    ensures
        forall|i: int|
            0 <= i < decimal(n).len() ==> '0' <= #[trigger] decimal(n)[i] && decimal(n)[i] <= '9',
        read_digits(decimal(n), 10) == n,
        decimal(n).len() >= 1,
        decimal(n)[0] == '0' ==> n == 0,
{
    lemma_digits_are_digit_chars(n, 10, false);
    lemma_digits_read_back(n, 10, false);
    assert forall|i: int| 0 <= i < decimal(n).len() implies '0' <= #[trigger] decimal(n)[i]
        && decimal(n)[i] <= '9' by {
        let d = choose|d: int| 0 <= d < 10 && decimal(n)[i] == digit_char(d, false);
        assert(0 <= d < 10 && decimal(n)[i] == digit_char(d, false));
    }
}

/// Appends one character to a string.
#[verifier::external_body]
fn push_char(s: &mut String, c: char)
    ensures
        final(s)@ == old(s)@.push(c),
{
    s.push(c);
}

/// Appends the digits of `n` in `base` to `s`.
pub fn push_digits(s: &mut String, n: u64, base: u64, upper: bool)
    requires
        2 <= base <= 16,
    ensures
        final(s)@ == old(s)@ + digits(n as nat, base as nat, upper),
    decreases n,
{
    if n >= base {
        assert(n / base < n) by (nonlinear_arith)
            requires
                base >= 2,
                n >= base,
        ;
        push_digits(s, n / base, base, upper);
    }
    let ghost before = s@;
    let d: u64 = n % base;
    let c: char = if d < 10 {
        ((d as u8) + 48) as char
    } else if upper {
        ((d as u8) + 55) as char
    } else {
        ((d as u8) + 87) as char
    };
    assert(c == digit_char(d as int, upper));
    push_char(s, c);
    assert(s@ == before.push(c));
    if n >= base {
        assert(old(s)@ + digits(n as nat, base as nat, upper) =~= s@);
    } else {
        assert(n % base == n) by (nonlinear_arith)
            requires
                n < base,
        ;
        assert(old(s)@ + digits(n as nat, base as nat, upper) =~= s@);
    }
}

/// Appends the decimal form of `v` to `s`, with a leading `-` when it is
/// negative.
pub fn push_signed_decimal(s: &mut String, v: i64)
    ensures
        final(s)@ == old(s)@ + signed_decimal(v as int),
{
    if v < 0 {
        push_char(s, '-');
        let magnitude: u64 = if v == i64::MIN {
            9223372036854775808u64
        } else {
            (-v) as u64
        };
        push_digits(s, magnitude, 10, false);
        assert(s@ =~= old(s)@ + signed_decimal(v as int));
    } else {
        push_digits(s, v as u64, 10, false);
    }
}

} // verus!
