//! Low-level text building: appending characters, runs of spaces, and
//! zero-padded numerals in a given base to a `String`, each proved equal
//! to a spec-level description over `Seq<char>`.

use vstd::prelude::*;

verus! {

/// The character for a single digit value, using `0`-`9` then `a`-`f`.
/// Total for convenience; only values below the base in use matter.
pub open spec fn digit_char(d: nat) -> char {
    if d < 10 {
        (0x30 + d) as char
    } else if d < 16 {
        (0x57 + d) as char
    } else {
        '0'
    }
}

/// The numeral for `n` in base `base`, zero-padded on the left to at
/// least `width` digits; wider than `width` when `n` needs more digits.
/// This matches the zero-padded formatting of the standard numeric
/// format specifiers (for example eight-digit hexadecimal offsets).
pub open spec fn numeral(n: nat, base: nat, width: nat) -> Seq<char>
    decreases n + width,
    via numeral_decreases
{
    if base < 2 {
        Seq::empty()
    } else if n < base && width <= 1 {
        seq![digit_char(n)]
    } else {
        numeral(n / base, base, if width == 0 { 0 } else { (width - 1) as nat }) + seq![
            digit_char(n % base),
        ]
    }
}

#[via_fn]
proof fn numeral_decreases(n: nat, base: nat, width: nat) {
    if base >= 2 && !(n < base && width <= 1) {
        if n >= base {
            vstd::arithmetic::div_mod::lemma_div_decreases(n as int, base as int);
        } else {
            vstd::arithmetic::div_mod::lemma_div_nonincreasing(n as int, base as int);
        }
    }
}

/// A run of `n` space characters.
pub open spec fn spaces(n: nat) -> Seq<char>
    decreases n,
{
    if n == 0 {
        Seq::empty()
    } else {
        spaces((n - 1) as nat) + seq![' ']
    }
}

/// Relies on `String::push`: appends the given character to the end of
/// the string.
#[verifier::external_body]
pub(crate) fn push_char(out: &mut String, c: char)
    ensures
        final(out)@ == old(out)@ + seq![c],
{
    out.push(c);
}

/// Appends the character for digit value `d`.
pub(crate) fn push_digit(out: &mut String, d: u8)
    requires
        d < 16,
    ensures
        final(out)@ == old(out)@ + seq![digit_char(d as nat)],
{
    if d < 10 {
        push_char(out, (0x30 + d) as char);
    } else {
        push_char(out, (0x57 + d) as char);
    }
}

/// Appends the numeral for `n` in base `base`, zero-padded to `width`.
pub(crate) fn push_numeral(out: &mut String, n: usize, base: usize, width: usize)
    requires
        2 <= base <= 16,
    ensures
        final(out)@ == old(out)@ + numeral(n as nat, base as nat, width as nat),
    decreases n + width,
{
    let ghost w2: nat = if width == 0 { 0 } else { (width - 1) as nat };
    if n >= base || width > 1 {
        proof {
            if n >= base {
                vstd::arithmetic::div_mod::lemma_div_decreases(n as int, base as int);
            } else {
                vstd::arithmetic::div_mod::lemma_div_nonincreasing(n as int, base as int);
            }
        }
        push_numeral(out, n / base, base, if width == 0 { 0 } else { width - 1 });
        push_digit(out, (n % base) as u8);
        proof {
            let mid = numeral((n / base) as nat, base as nat, w2);
            let d = seq![digit_char((n % base) as nat)];
            assert(out@ =~= old(out)@ + (mid + d));
        }
    } else {
        push_digit(out, (n % base) as u8);
        proof {
            vstd::arithmetic::div_mod::lemma_small_mod(n as nat, base as nat);
        }
    }
}

/// Every character of a numeral is a decimal digit or one of the hex
/// letters `a`-`f`.
pub proof fn lemma_numeral_chars(n: nat, base: nat, width: nat)
    ensures
        forall|k: int|
            0 <= k < numeral(n, base, width).len() ==> ((0x30 <= #[trigger] numeral(
                n,
                base,
                width,
            )[k] as u32 && numeral(n, base, width)[k] as u32 <= 0x39) || (0x61 <= numeral(
                n,
                base,
                width,
            )[k] as u32 && numeral(n, base, width)[k] as u32 <= 0x66)),
    decreases n + width,
{
    if base < 2 {
    } else if n < base && width <= 1 {
    } else {
        let w2: nat = if width == 0 { 0 } else { (width - 1) as nat };
        if n >= base {
            vstd::arithmetic::div_mod::lemma_div_decreases(n as int, base as int);
        } else {
            vstd::arithmetic::div_mod::lemma_div_nonincreasing(n as int, base as int);
        }
        lemma_numeral_chars(n / base, base, w2);
        let sub = numeral(n / base, base, w2);
        assert forall|k: int| 0 <= k < numeral(n, base, width).len() implies ((0x30 <= numeral(
            n,
            base,
            width,
        )[k] as u32 && numeral(n, base, width)[k] as u32 <= 0x39) || (0x61 <= numeral(
            n,
            base,
            width,
        )[k] as u32 && numeral(n, base, width)[k] as u32 <= 0x66)) by {
            if k < sub.len() {
                assert(numeral(n, base, width)[k] == sub[k]);
            } else {
                assert(numeral(n, base, width)[k] == digit_char(n % base));
            }
        }
    }
}

/// A numeral is exactly `width` digits long while `n` fits in `width`
/// digits.
pub proof fn lemma_numeral_len(n: nat, base: nat, width: nat)
    requires
        2 <= base,
        1 <= width,
        (n as int) < vstd::arithmetic::power::pow(base as int, width),
    ensures
        numeral(n, base, width).len() == width,
    decreases width,
{
    reveal_with_fuel(vstd::arithmetic::power::pow, 2);
    assert(vstd::arithmetic::power::pow(base as int, 1) == base * vstd::arithmetic::power::pow(
        base as int,
        0,
    ));
    assert(vstd::arithmetic::power::pow(base as int, 0) == 1);
    if n < base && width <= 1 {
    } else {
        let w2 = (width - 1) as nat;
        assert(vstd::arithmetic::power::pow(base as int, width) == base
            * vstd::arithmetic::power::pow(base as int, w2));
        vstd::arithmetic::power::lemma_pow_positive(base as int, w2);
        vstd::arithmetic::div_mod::lemma_multiply_divide_lt(
            n as int,
            base as int,
            vstd::arithmetic::power::pow(base as int, w2),
        );
        lemma_numeral_len(n / base, base, w2);
    }
}

/// A space run is `n` characters long.
pub proof fn lemma_spaces_len(n: nat)
    ensures
        spaces(n).len() == n,
    decreases n,
{
    if n > 0 {
        lemma_spaces_len((n - 1) as nat);
    }
}

/// Every character of a space run is the space character.
pub proof fn lemma_spaces_chars(n: nat)
    ensures
        forall|k: int| 0 <= k < spaces(n).len() ==> #[trigger] spaces(n)[k] == ' ',
    decreases n,
{
    if n > 0 {
        lemma_spaces_chars((n - 1) as nat);
        let sub = spaces((n - 1) as nat);
        assert forall|k: int| 0 <= k < spaces(n).len() implies spaces(n)[k] == ' ' by {
            if k < sub.len() {
                assert(spaces(n)[k] == sub[k]);
            } else {
                assert(spaces(n)[k] == ' ');
            }
        }
    }
}

/// Appends `n` space characters.
pub(crate) fn push_spaces(out: &mut String, n: usize)
    ensures
        final(out)@ == old(out)@ + spaces(n as nat),
{
    let mut j: usize = 0;
    while j < n
        invariant
            j <= n,
            out@ == old(out)@ + spaces(j as nat),
        decreases n - j,
    {
        push_char(out, ' ');
        assert(old(out)@ + spaces(j as nat) + seq![' '] =~= old(out)@ + spaces((j + 1) as nat));
        j = j + 1;
    }
}

} // verus!
