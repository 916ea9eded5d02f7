//! How numbers and lists are written.

use crate::text;
use std::fmt;
use vstd::prelude::*;

verus! {

/// A digit.
pub open spec fn digit(d: int) -> Seq<char>
    recommends
        0 <= d < 16,
{
    if d == 0 {
        "0"@
    } else if d == 1 {
        "1"@
    } else if d == 2 {
        "2"@
    } else if d == 3 {
        "3"@
    } else if d == 4 {
        "4"@
    } else if d == 5 {
        "5"@
    } else if d == 6 {
        "6"@
    } else if d == 7 {
        "7"@
    } else if d == 8 {
        "8"@
    } else if d == 9 {
        "9"@
    } else if d == 10 {
        "a"@
    } else if d == 11 {
        "b"@
    } else if d == 12 {
        "c"@
    } else if d == 13 {
        "d"@
    } else if d == 14 {
        "e"@
    } else {
        "f"@
    }
}

/// A number in a base: the digits from the highest to the lowest, without zeros in front.
pub open spec fn numeral(n: nat, base: nat) -> Seq<char>
    decreases n,
{
    if base < 2 || n < base {
        digit(n as int)
    } else {
        proof {
            assert(n / base < n) by (nonlinear_arith)
                requires
                    base >= 2,
                    n >= base,
            ;
        }
        numeral(n / base, base) + digit((n % base) as int)
    }
}

/// A number that may be negative, in base ten.
pub open spec fn signed(n: int) -> Seq<char> {
    if n < 0 {
        "-"@ + numeral((-n) as nat, 10)
    } else {
        numeral(n as nat, 10)
    }
}

/// Texts one behind the other, with a separator between them.
pub open spec fn joined(items: Seq<Seq<char>>, separator: Seq<char>) -> Seq<char>
    decreases items.len(),
{
    if items.len() == 0 {
        seq![]
    } else if items.len() == 1 {
        items[0]
    } else {
        joined(items.drop_last(), separator) + separator + items.last()
    }
}

/// A list: its items between brackets.
pub open spec fn bracketed(items: Seq<Seq<char>>) -> Seq<char> {
    "["@ + joined(items, ", "@) + "]"@
}

/// Numbers in base ten.
pub open spec fn decimals(numbers: Seq<u32>) -> Seq<Seq<char>> {
    numbers.map_values(|n: u32| numeral(n as nat, 10))
}

fn digit_text(d: u32) -> (r: &'static str)
    requires
        d < 16,
    ensures
        r@ == digit(d as int),
{
    match d {
        0 => "0",
        1 => "1",
        2 => "2",
        3 => "3",
        4 => "4",
        5 => "5",
        6 => "6",
        7 => "7",
        8 => "8",
        9 => "9",
        10 => "a",
        11 => "b",
        12 => "c",
        13 => "d",
        14 => "e",
        _ => "f",
    }
}

/// Writes a number in a base.
pub fn write_numeral(n: u32, base: u32) -> (r: String)
    requires
        2 <= base <= 16,
    ensures
        r@ == numeral(n as nat, base as nat),
    decreases n,
{
    if n < base {
        digit_text(n).to_owned()
    } else {
        assert(n / base < n) by (nonlinear_arith)
            requires
                base >= 2,
                n >= base,
        ;
        assert(n % base < base) by (nonlinear_arith)
            requires
                base >= 2,
        ;
        write_numeral(n / base, base).concat(digit_text(n % base))
    }
}

/// Writes a number that may be negative.
pub fn write_signed(n: i32) -> (r: String)
    ensures
        r@ == signed(n as int),
{
    if n < 0 {
        let size: i64 = -(n as i64);
        "-".to_owned().concat(write_numeral(size as u32, 10).as_str())
    } else {
        write_numeral(n as u32, 10)
    }
}

/// Writes texts one behind the other.
pub fn write_joined(items: &Vec<String>, separator: &str) -> (r: String)
    ensures
        r@ == joined(text::texts(items@), separator@),
{
    let ghost all = text::texts(items@);
    let mut r = String::new();
    let mut i: usize = 0;
    while i < items.len()
        invariant
            i <= items@.len(),
            all == text::texts(items@),
            r@ == joined(all.take(i as int), separator@),
        decreases items@.len() - i,
    {
        assert(all.take(i + 1).drop_last() =~= all.take(i as int));
        if i > 0 {
            r.append(separator);
        }
        r.append(items[i].as_str());
        i = i + 1;
    }
    assert(all.take(all.len() as int) =~= all);
    r
}

/// Writes a list.
pub fn write_bracketed(items: &Vec<String>) -> (r: String)
    ensures
        r@ == bracketed(text::texts(items@)),
{
    "[".to_owned().concat(write_joined(items, ", ").as_str()).concat("]")
}

/// Writes numbers in base ten.
pub fn write_decimals(numbers: &Vec<u32>) -> (r: Vec<String>)
    ensures
        text::texts(r@) == decimals(numbers@),
{
    let mut r: Vec<String> = Vec::new();
    let mut i: usize = 0;
    while i < numbers.len()
        invariant
            i <= numbers@.len(),
            text::texts(r@) == decimals(numbers@).take(i as int),
        decreases numbers@.len() - i,
    {
        let ghost before = r@;
        let n = write_numeral(numbers[i], 10);
        r.push(n);
        assert(text::texts(r@) =~= text::texts(before).push(n@));
        i = i + 1;
    }
    assert(text::texts(r@) =~= decimals(numbers@));
    r
}

/// How a text is written between quotes, with what cannot stand there written otherwise.
pub uninterp spec fn quoted(text: Seq<char>) -> Seq<char>;

/// The `Debug` form of a `str`: the text between double quotes, with what cannot be printed
/// escaped. It is a matter of the text alone.
#[verifier::external_body]
pub(crate) fn write_quoted(text: &str) -> (r: String)
    ensures
        r@ == quoted(text@),
        r@.len() >= 2,
        r@[0] == '"',
        r@.last() == '"',
{
    format!("{:?}", text)
}

/// `std::fmt::Formatter`, to which texts are handed.
#[verifier::external_type_specification]
#[verifier::external_body]
pub struct ExFormatter<'a>(fmt::Formatter<'a>);

/// `std::fmt::Error`, carried through as it is.
#[verifier::external_type_specification]
#[verifier::external_body]
pub struct ExFormatError(fmt::Error);

/// `Formatter::write_str`: hands a text to a formatter. What becomes of it, and whether that
/// fails, is up to whoever made the formatter, and nothing is promised of it.
#[verifier::external_body]
pub(crate) fn hand_to(f: &mut fmt::Formatter<'_>, text: &str) -> (r: fmt::Result) {
    f.write_str(text)
}

/// The number that a character stands for as a digit, or -1.
pub open spec fn digit_value(c: char) -> int {
    if '0' <= c <= '9' {
        c as int - '0' as int
    } else if 'a' <= c <= 'f' {
        c as int - 'a' as int + 10
    } else {
        -1
    }
}

/// The number that digits stand for in a base: each digit counts as often as the base times the one
/// behind it.
pub open spec fn value_of(digits: Seq<char>, base: nat) -> int
    decreases digits.len(),
{
    if digits.len() == 0 {
        0
    } else {
        value_of(digits.drop_last(), base) * base + digit_value(digits.last())
    }
}

proof fn digits_have_their_values(d: int)
    requires
        0 <= d < 16,
    ensures
        digit(d).len() == 1,
        digit_value(digit(d)[0]) == d,
{
    reveal_strlit("0");
    reveal_strlit("1");
    reveal_strlit("2");
    reveal_strlit("3");
    reveal_strlit("4");
    reveal_strlit("5");
    reveal_strlit("6");
    reveal_strlit("7");
    reveal_strlit("8");
    reveal_strlit("9");
    reveal_strlit("a");
    reveal_strlit("b");
    reveal_strlit("c");
    reveal_strlit("d");
    reveal_strlit("e");
    reveal_strlit("f");
}

/// A number that is written in a base is read back from its digits, all of which are digits of the
/// base; there is no zero in front but for zero itself.
pub proof fn numerals_read_back(n: nat, base: nat)
    requires
        2 <= base <= 16,
    ensures
        value_of(numeral(n, base), base) == n,
        numeral(n, base).len() > 0,
        n > 0 ==> numeral(n, base)[0] != '0',
        n == 0 ==> numeral(n, base).len() == 1,
        forall|i: int|
            0 <= i < numeral(n, base).len() ==> 0 <= digit_value(#[trigger] numeral(n, base)[i])
                < base,
    decreases n,
{
    if n < base {
        digits_have_their_values(n as int);
        assert(value_of(seq![], base) == 0);
        assert(numeral(n, base).drop_last() =~= seq![]);
        assert(value_of(numeral(n, base), base) == 0 * base + n);
    } else {
        assert(n / base < n && n / base > 0) by (nonlinear_arith)
            requires
                base >= 2,
                n >= base,
        ;
        assert(n % base < base) by (nonlinear_arith)
            requires
                base >= 2,
        ;
        assert(n / base * base + n % base == n) by (nonlinear_arith)
            requires
                base >= 2,
        ;
        let front = numeral(n / base, base);
        numerals_read_back(n / base, base);
        digits_have_their_values((n % base) as int);
        assert(numeral(n, base).drop_last() =~= front);
        assert forall|i: int| 0 <= i < numeral(n, base).len() implies 0 <= digit_value(
            #[trigger] numeral(n, base)[i],
        ) < base by {
            if i < front.len() {
                assert(numeral(n, base)[i] == front[i]);
            }
        }
    }
}

/// A number that may be negative is read back from what is written: a sign in front if it is
/// negative, and then its digits.
pub proof fn signed_numbers_read_back(n: int)
    ensures
        n >= 0 ==> value_of(signed(n), 10) == n && signed(n)[0] != '-',
        n < 0 ==> signed(n)[0] == '-' && value_of(signed(n).skip(1), 10) == -n,
{
    reveal_strlit("-");
    if n < 0 {
        numerals_read_back((-n) as nat, 10);
        assert(signed(n).skip(1) =~= numeral((-n) as nat, 10));
    } else {
        numerals_read_back(n as nat, 10);
        assert(0 <= digit_value(numeral(n as nat, 10)[0]));
    }
}

/// Texts that are joined stand one behind the other, with the separator between each two of them
/// and nowhere else. A list that is written stands between brackets, and its items are joined by a
/// comma and a space.
pub proof fn joining_separates_the_items(
    items: Seq<Seq<char>>,
    last: Seq<char>,
    separator: Seq<char>,
)
    ensures
        joined(seq![], separator) == Seq::<char>::empty(),
        joined(seq![last], separator) == last,
        items.len() > 0 ==> joined(items.push(last), separator) == joined(items, separator)
            + separator + last,
        bracketed(items).len() >= 2,
        bracketed(items)[0] == '[',
        bracketed(items).last() == ']',
        bracketed(items).subrange(1, bracketed(items).len() - 1) == joined(items, seq![',', ' ']),
{
    reveal_strlit("[");
    reveal_strlit("]");
    reveal_strlit(", ");
    assert(items.push(last).drop_last() =~= items);
    assert(", "@ =~= seq![',', ' ']);
    assert(bracketed(items).subrange(1, bracketed(items).len() - 1) =~= joined(items, ", "@));
}

/// Each number of a list is written by itself, in its place.
pub proof fn numbers_are_written_one_by_one(numbers: Seq<u32>, i: int)
    requires
        0 <= i < numbers.len(),
    ensures
        decimals(numbers).len() == numbers.len(),
        value_of(decimals(numbers)[i], 10) == numbers[i],
        numbers[i] > 0 ==> decimals(numbers)[i][0] != '0',
        numbers[i] == 0 ==> decimals(numbers)[i].len() == 1,
{
    numerals_read_back(numbers[i] as nat, 10);
}

} // verus!
