//! Helpers shared by the writers: appending characters and decimal numbers to
//! text, and the A1 notation for columns, cells and ranges.

use vstd::prelude::*;
use vstd::string::*;

verus! {

/// Number of a worksheet row, counted from zero.
pub type RowNum = u32;

/// Number of a worksheet column, counted from zero.
pub type ColNum = u16;

/// Number of rows of the grid: valid rows are `0 .. ROW_MAX`.
pub const ROW_MAX: RowNum = 1_048_576;

/// Number of columns of the grid: valid columns are `0 .. COL_MAX`.
pub const COL_MAX: ColNum = 16_384;

/// Longest text, in characters, that a cell may hold.
pub const MAX_STRING_LEN: usize = 32_767;

/// Longest link, in characters.
pub const MAX_URL_LEN: usize = 2_080;

/// Appends one character to a string.
///
/// Trusted: this is `String::push` of the standard library, which appends the
/// given character to the end of the string.
#[verifier::external_body]
pub(crate) fn push_char(s: &mut String, c: char)
    ensures
        final(s)@ == old(s)@.push(c),
{
    s.push(c);
}

/// Compares two string slices.
///
/// Trusted: this is the `==` of `str` in the standard library, which holds
/// exactly when both slices are the same sequence of characters.
#[verifier::external_body]
pub(crate) fn str_equal(a: &str, b: &str) -> (r: bool)
    ensures
        r == (a@ == b@),
{
    a == b
}

/// Whether the text `text` begins with the text `prefix`.
pub open spec fn begins_with(text: Seq<char>, prefix: Seq<char>) -> bool {
    text.len() >= prefix.len() && text.take(prefix.len() as int) == prefix
}

/// Whether the text `text` begins with the text `prefix`.
pub fn has_prefix(text: &str, prefix: &str) -> (r: bool)
    ensures
        r == begins_with(text@, prefix@),
{
    let length = prefix.unicode_len();
    if text.unicode_len() < length {
        return false;
    }
    let mut i: usize = 0;
    while i < length
        invariant
            i <= length,
            length == prefix@.len(),
            length <= text@.len(),
            forall|k: int| 0 <= k < i ==> text@[k] == prefix@[k],
        decreases length - i,
    {
        if text.get_char(i) != prefix.get_char(i) {
            proof {
                assert(text@.take(length as int)[i as int] == text@[i as int]);
            }
            return false;
        }
        i += 1;
    }
    proof {
        assert(text@.take(length as int) =~= prefix@);
    }
    true
}

/// The text `text` without its first `count` characters.
pub fn skip_chars(text: &str, count: usize) -> (rest: String)
    requires
        count <= text@.len(),
    ensures
        rest@ == text@.skip(count as int),
{
    let length = text.unicode_len();
    proof {
        assert(text@.subrange(count as int, length as int) =~= text@.skip(count as int));
    }
    text.substring_char(count, length).to_owned()
}

/// The character for a decimal digit `d` in `0 ..= 9`.
pub open spec fn digit_char(d: int) -> char {
    ((48 + d) as u8) as char
}

/// The decimal numeral of `n`, without sign or leading zeros.
pub open spec fn decimal_text(n: nat) -> Seq<char>
    decreases n,
{
    if n < 10 {
        seq![digit_char(n as int)]
    } else {
        decimal_text(n / 10).push(digit_char((n % 10) as int))
    }
}

/// The `k`-th power of ten.
pub open spec fn power_of_ten(k: nat) -> nat
    decreases k,
{
    if k == 0 {
        1
    } else {
        10 * power_of_ten((k - 1) as nat)
    }
}

/// A number below the `k`-th power of ten has `k` digits at most, and at
/// least one.
pub proof fn lemma_decimal_text_len(n: nat, k: nat)
    requires
        k >= 1,
        n < power_of_ten(k),
    ensures
        1 <= decimal_text(n).len() <= k,
    decreases n,
{
    if n >= 10 {
        assert(power_of_ten(1) == 10) by {
            reveal_with_fuel(power_of_ten, 2);
        }
        if k == 1 {
            assert(false);
        }
        assert(power_of_ten(k) == 10 * power_of_ten((k - 1) as nat));
        lemma_decimal_text_len(n / 10, (k - 1) as nat);
    }
}

/// The upper-case letter with index `i` in `0 ..= 25`.
pub open spec fn letter_char(i: int) -> char {
    ((65 + i) as u8) as char
}

/// The letters that name column `col`: `A` for 0, `Z` for 25, `AA` for 26.
pub open spec fn column_name_text(col: nat) -> Seq<char>
    decreases col,
{
    if col < 26 {
        seq![letter_char(col as int)]
    } else {
        column_name_text(((col / 26) - 1) as nat).push(letter_char((col % 26) as int))
    }
}

/// The A1 reference of the cell at `(row, col)`: column letters, then the
/// row number counted from one.
pub open spec fn cell_ref_text(row: nat, col: nat) -> Seq<char> {
    column_name_text(col) + decimal_text(row + 1)
}

/// The A1 reference of the range from `(first_row, first_col)` to
/// `(last_row, last_col)`; a range of one cell is written as that cell.
pub open spec fn range_ref_text(first_row: nat, first_col: nat, last_row: nat, last_col: nat) -> Seq<
    char,
> {
    if first_row == last_row && first_col == last_col {
        cell_ref_text(first_row, first_col)
    } else {
        cell_ref_text(first_row, first_col) + seq![':'] + cell_ref_text(last_row, last_col)
    }
}

/// Appends the decimal numeral of `n`.
pub fn push_decimal(out: &mut String, n: u128)
    ensures
        final(out)@ == old(out)@ + decimal_text(n as nat),
    decreases n,
{
    if n >= 10 {
        push_decimal(out, n / 10);
    }
    let d: u8 = (n % 10) as u8;
    push_char(out, (48u8 + d) as char);
    proof {
        if n >= 10 {
            assert(out@ =~= old(out)@ + decimal_text(n as nat));
        } else {
            assert(out@ =~= old(out)@ + decimal_text(n as nat));
        }
    }
}

/// The decimal numeral of `n` as a new string.
pub fn decimal_string(n: u64) -> (s: String)
    ensures
        s@ == decimal_text(n as nat),
{
    let mut s = String::new();
    push_decimal(&mut s, n as u128);
    assert(s@ =~= decimal_text(n as nat));
    s
}

/// The decimal numeral of the sum of `base` and `offset` as a new string.
pub fn decimal_string_of_sum(base: usize, offset: usize) -> (s: String)
    ensures
        s@ == decimal_text((base + offset) as nat),
{
    let mut s = String::new();
    push_decimal(&mut s, base as u128 + offset as u128);
    assert(s@ =~= decimal_text((base + offset) as nat));
    s
}

/// Appends the letters that name column `col`.
pub fn push_column_name(out: &mut String, col: ColNum)
    ensures
        final(out)@ == old(out)@ + column_name_text(col as nat),
    decreases col,
{
    if col >= 26 {
        push_column_name(out, col / 26 - 1);
    }
    let i: u8 = (col % 26) as u8;
    push_char(out, (65u8 + i) as char);
    proof {
        assert(out@ =~= old(out)@ + column_name_text(col as nat));
    }
}

/// Appends the A1 reference of the cell at `(row, col)`.
pub fn push_cell_ref(out: &mut String, row: RowNum, col: ColNum)
    ensures
        final(out)@ == old(out)@ + cell_ref_text(row as nat, col as nat),
{
    push_column_name(out, col);
    push_decimal(out, row as u128 + 1);
    proof {
        assert(out@ =~= old(out)@ + cell_ref_text(row as nat, col as nat));
    }
}

/// Appends the A1 reference of a range of cells.
pub fn push_range_ref(
    out: &mut String,
    first_row: RowNum,
    first_col: ColNum,
    last_row: RowNum,
    last_col: ColNum,
)
    ensures
        final(out)@ == old(out)@ + range_ref_text(
            first_row as nat,
            first_col as nat,
            last_row as nat,
            last_col as nat,
        ),
{
    push_cell_ref(out, first_row, first_col);
    if !(first_row == last_row && first_col == last_col) {
        push_char(out, ':');
        push_cell_ref(out, last_row, last_col);
    }
    proof {
        assert(out@ =~= old(out)@ + range_ref_text(
            first_row as nat,
            first_col as nat,
            last_row as nat,
            last_col as nat,
        ));
    }
}

/// The digits after the point of `value / (10 * divisor)`, without
/// trailing zeros, where `divisor` is a power of ten and `value` is below
/// `10 * divisor`: the first digit is `value / divisor`, and the digits of
/// the rest follow until nothing is left.
pub open spec fn fraction_text(value: nat, divisor: nat) -> Seq<char>
    decreases divisor,
{
    if value == 0 || divisor == 0 {
        Seq::<char>::empty()
    } else {
        seq![digit_char((value / divisor) as int)] + fraction_text(value % divisor, divisor / 10)
    }
}

/// The decimal numeral of `units / scale`, where the part after the point
/// is `(units % scale) * step / (10 * divisor)`: the whole part, and, where
/// a part is left, a point and its digits.
pub open spec fn scaled_text(units: nat, scale: nat, step: nat, divisor: nat) -> Seq<char> {
    if scale == 0 {
        decimal_text(units)
    } else if units % scale == 0 {
        decimal_text(units / scale)
    } else {
        decimal_text(units / scale) + seq!['.'] + fraction_text((units % scale) * step, divisor)
    }
}

/// Whether `d` is a power of ten.
pub open spec fn is_power_of_ten(d: nat) -> bool
    decreases d,
{
    d == 1 || (d >= 10 && d % 10 == 0 && is_power_of_ten(d / 10))
}

/// Appends the digits after the point of `value / (10 * divisor)`.
pub fn push_fraction(out: &mut String, value: u64, divisor: u64)
    requires
        is_power_of_ten(divisor as nat),
        value < 10 * divisor,
    ensures
        final(out)@ == old(out)@ + fraction_text(value as nat, divisor as nat),
    decreases divisor,
{
    if value == 0 {
        proof {
            assert(out@ =~= old(out)@ + fraction_text(value as nat, divisor as nat));
        }
    } else {
        proof {
            assert(value / divisor < 10) by (nonlinear_arith)
                requires
                    value < 10 * divisor,
                    divisor > 0,
            ;
        }
        let d: u8 = (value / divisor) as u8;
        push_char(out, (48u8 + d) as char);
        if divisor >= 10 {
            proof {
                assert(value % divisor < divisor);
            }
            push_fraction(out, value % divisor, divisor / 10);
        } else {
            proof {
                assert(divisor == 1);
                assert(fraction_text((value % divisor) as nat, 0) =~= Seq::<char>::empty());
            }
        }
        proof {
            assert(out@ =~= old(out)@ + fraction_text(value as nat, divisor as nat));
        }
    }
}

/// Appends the decimal numeral of `units / scale`; see `scaled_text`.
pub fn push_scaled(out: &mut String, units: u64, scale: u64, step: u64, divisor: u64)
    requires
        0 < scale <= 1_000_000,
        0 < step <= 1_000_000_000,
        is_power_of_ten(divisor as nat),
        scale * step <= 10 * divisor,
    ensures
        final(out)@ == old(out)@ + scaled_text(
            units as nat,
            scale as nat,
            step as nat,
            divisor as nat,
        ),
{
    push_decimal(out, (units / scale) as u128);
    let rest = units % scale;
    if rest != 0 {
        push_char(out, '.');
        proof {
            assert(rest * step < scale * step) by (nonlinear_arith)
                requires
                    rest < scale,
                    0 < step,
            ;
            assert(rest * step <= 1_000_000 * 1_000_000_000) by (nonlinear_arith)
                requires
                    rest < 1_000_000,
                    step <= 1_000_000_000,
            ;
        }
        push_fraction(out, rest * step, divisor);
    }
    proof {
        assert(out@ =~= old(out)@ + scaled_text(
            units as nat,
            scale as nat,
            step as nat,
            divisor as nat,
        ));
    }
}

/// Appending two texts in turn is appending their concatenation.
pub proof fn lemma_append_2<T>(x: Seq<T>, a: Seq<T>, b: Seq<T>)
    ensures
        (x + a) + b == x + (a + b),
{
    assert((x + a) + b =~= x + (a + b));
}

/// Appending three texts in turn is appending their concatenation.
pub proof fn lemma_append_3<T>(x: Seq<T>, a: Seq<T>, b: Seq<T>, c: Seq<T>)
    ensures
        ((x + a) + b) + c == x + ((a + b) + c),
{
    assert(((x + a) + b) + c =~= x + ((a + b) + c));
}

/// Appending four texts in turn is appending their concatenation.
pub proof fn lemma_append_4<T>(x: Seq<T>, a: Seq<T>, b: Seq<T>, c: Seq<T>, d: Seq<T>)
    ensures
        (((x + a) + b) + c) + d == x + (((a + b) + c) + d),
{
    assert((((x + a) + b) + c) + d =~= x + (((a + b) + c) + d));
}

/// Appending five texts in turn is appending their concatenation.
pub proof fn lemma_append_5<T>(x: Seq<T>, a: Seq<T>, b: Seq<T>, c: Seq<T>, d: Seq<T>, e: Seq<T>)
    ensures
        ((((x + a) + b) + c) + d) + e == x + ((((a + b) + c) + d) + e),
{
    assert(((((x + a) + b) + c) + d) + e =~= x + ((((a + b) + c) + d) + e));
}

} // verus!
