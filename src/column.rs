//! Spreadsheet column names: bijective base-26 numeration over `A..Z`.

use unicode_segmentation::UnicodeSegmentation;
use vstd::prelude::*;

verus! {

/// True of the capital ASCII letters, the digits of a column name.
pub open spec fn is_column_digit(c: char) -> bool {
    'A' <= c && c <= 'Z'
}

/// The letter for the digit value `d` (0 is `A`, 25 is `Z`).
pub open spec fn letter_of(d: int) -> char {
    ((d + 'A' as int) as u8) as char
}

/// The value of a capital letter as a digit, from `A` = 1 to `Z` = 26.
pub open spec fn digit_value(c: char) -> int {
    (c as int) - ('A' as int) + 1
}

/// The bijective base-26 name of the positive number `n` (1 is `A`, 27 is
/// `AA`); the empty name for 0.
pub open spec fn bijective_letters(n: nat) -> Seq<char>
    decreases n,
{
    if n == 0 {
        Seq::empty()
    } else if n % 26 == 0 {
        bijective_letters((n / 26 - 1) as nat).push('Z')
    } else {
        bijective_letters(n / 26).push(letter_of(n % 26 - 1))
    }
}

/// The name of the zero-based column `col`; the empty name for a negative one.
pub open spec fn column_name(col: int) -> Seq<char> {
    if col < 0 {
        Seq::empty()
    } else {
        bijective_letters((col + 1) as nat)
    }
}

/// The number that the letters of `s` spell in bijective base 26, read
/// left to right; characters that are not capital letters are skipped.
pub open spec fn letters_value(s: Seq<char>) -> int
    decreases s.len(),
{
    if s.len() == 0 {
        0
    } else if is_column_digit(s.last()) {
        letters_value(s.drop_last()) * 26 + digit_value(s.last())
    } else {
        letters_value(s.drop_last())
    }
}

/// The zero-based column that a name stands for.
pub open spec fn column_index(s: Seq<char>) -> int {
    letters_value(s) - 1
}

/// Every character of `s` is a capital letter.
pub open spec fn all_column_digits(s: Seq<char>) -> bool {
    forall|i: int| 0 <= i < s.len() ==> #[trigger] is_column_digit(s[i])
}

/// Appends one character to a string.
pub assume_specification[ String::push ](s: &mut String, ch: char)
    ensures
        final(s)@ == old(s)@.push(ch),
;

/// Relies on `UnicodeSegmentation::graphemes`: between two ASCII letters
/// there is always a grapheme boundary, so for such text the clusters are
/// the single characters and reversing them reverses the text.
#[verifier::external_body]
fn reverse_graphemes(s: &String) -> (r: String)
    requires
        all_column_digits(s@),
    ensures
        r@ == s@.reverse(),
{
    s.graphemes(true).rev().collect::<Vec<&str>>().concat()
}

/// The bijective base-26 name of `total`: digits are taken least
/// significant first, then put in reading order.
fn bijective_text(total: u128) -> (r: String)
    ensures
        r@ == bijective_letters(total as nat),
{
    let mut digits = String::new();
    let mut n: u128 = total;
    proof {
        assert(bijective_letters(total as nat) =~= bijective_letters(n as nat) + digits@.reverse());
    }
    while n > 0
        invariant
            bijective_letters(total as nat) == bijective_letters(n as nat) + digits@.reverse(),
            all_column_digits(digits@),
        decreases n,
    {
        let rem: u128 = n % 26;
        let ghost prev: nat = n as nat;
        if rem == 0 {
            digits.push('Z');
            n = n / 26 - 1;
        } else {
            let c = ((rem - 1) as u8 + 'A' as u8) as char;
            assert(c == letter_of(rem - 1));
            digits.push(c);
            n = n / 26;
        }
        proof {
            assert(bijective_letters(prev) == bijective_letters(n as nat).push(digits@.last()));
            assert(digits@.reverse() =~= seq![digits@.last()] + digits@.drop_last().reverse());
            assert(bijective_letters(n as nat).push(digits@.last()) + digits@.drop_last().reverse()
                =~= bijective_letters(n as nat) + digits@.reverse());
        }
    }
    proof {
        assert(bijective_letters(n as nat) =~= Seq::<char>::empty());
        assert(digits@.reverse() =~= bijective_letters(total as nat));
    }
    reverse_graphemes(&digits)
}

/// The name of the zero-based column `col`: `0` is `A`, `25` is `Z`, `26` is
/// `AA`. A negative column has the empty name.
pub fn to_column_letter(col: i32) -> (r: String)
    ensures
        r@ == column_name(col as int),
{
    if col < 0 {
        return String::new();
    }
    bijective_text(col as u128 + 1)
}

/// The name of the zero-based column `col`, for any column of a grid.
pub fn column_letters(col: usize) -> (r: String)
    ensures
        r@ == column_name(col as int),
{
    bijective_text(col as u128 + 1)
}

proof fn lemma_letters_value_nonneg(s: Seq<char>)
    ensures
        letters_value(s) >= 0,
    decreases s.len(),
{
    if s.len() > 0 {
        lemma_letters_value_nonneg(s.drop_last());
    }
}

/// A prefix of a name never spells more than the whole name.
proof fn lemma_prefix_value_le(s: Seq<char>, i: int)
    requires
        0 <= i <= s.len(),
    ensures
        letters_value(s.take(i)) <= letters_value(s),
    decreases s.len() - i,
{
    if i < s.len() {
        assert(s.drop_last().take(i) =~= s.take(i));
        lemma_prefix_value_le(s.drop_last(), i);
        lemma_letters_value_nonneg(s.drop_last());
    } else {
        assert(s.take(i) =~= s);
    }
}

/// The value of the capital letters in `s`, or `None` where it exceeds
/// `i32::MAX`.
pub fn letters_value_checked(s: &str) -> (r: Option<i64>)
    ensures
        match r {
            Some(v) => v == letters_value(s@) && v <= i32::MAX,
            None => letters_value(s@) > i32::MAX,
        },
{
    let len = s.unicode_len();
    let mut num: i64 = 0;
    let mut i: usize = 0;
    while i < len
        invariant
            len == s@.len(),
            0 <= i <= len,
            num == letters_value(s@.take(i as int)),
            0 <= num <= i32::MAX,
        decreases len - i,
    {
        let c = s.get_char(i);
        proof {
            assert(s@.take(i + 1).drop_last() =~= s@.take(i as int));
            lemma_prefix_value_le(s@, i + 1);
        }
        if 'A' <= c && c <= 'Z' {
            let d: i64 = (c as u8 - 'A' as u8) as i64 + 1;
            if num > (i32::MAX as i64 - d) / 26 {
                proof {
                    assert(num * 26 + d > i32::MAX) by (nonlinear_arith)
                        requires
                            num > (i32::MAX - d) / 26,
                            1 <= d <= 26,
                    ;
                }
                return None;
            }
            proof {
                assert(num * 26 + d <= i32::MAX) by (nonlinear_arith)
                    requires
                        num <= (i32::MAX - d) / 26,
                        1 <= d <= 26,
                        num >= 0,
                ;
            }
            num = num * 26 + d;
        }
        i = i + 1;
    }
    proof {
        assert(s@.take(len as int) =~= s@);
    }
    Some(num)
}

/// The zero-based column that the name `col` stands for: `A` is 0, `AA` is
/// 26. Characters other than capital letters are skipped, so text without
/// letters gives -1.
pub fn from_column_letter(col: String) -> (r: i32)
    requires
        letters_value(col@) <= i32::MAX,
    ensures
        r == column_index(col@),
{
    let v = letters_value_checked(col.as_str());
    proof {
        lemma_letters_value_nonneg(col@);
    }
    match v {
        Some(n) => (n - 1) as i32,
        None => -1,
    }
}

/// Reading a column's name back gives the column: `from_column_letter`
/// undoes `to_column_letter` for every column that is not negative.
pub proof fn lemma_column_round_trip(col: int)
    requires
        col >= 0,
    ensures
        column_index(column_name(col)) == col,
{
    lemma_bijective_value((col + 1) as nat);
}

proof fn lemma_bijective_value(n: nat)
    ensures
        letters_value(bijective_letters(n)) == n,
    decreases n,
{
    if n > 0 {
        let s = bijective_letters(n);
        if n % 26 == 0 {
            lemma_bijective_value((n / 26 - 1) as nat);
            assert(s.drop_last() =~= bijective_letters((n / 26 - 1) as nat));
        } else {
            lemma_bijective_value(n / 26);
            assert(s.drop_last() =~= bijective_letters(n / 26));
            assert(digit_value(letter_of(n % 26 - 1)) == n % 26);
        }
    }
}

} // verus!
