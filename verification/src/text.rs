//! Small helpers on text.

use vstd::prelude::*;
use vstd::string::StrSliceExecFns;
use vstd::string::StringExecFns;

verus! {

/// The character of the decimal digit `d`.
pub open spec fn digit_char(d: nat) -> char
    recommends
        d < 10,
{
    if d == 0 {
        '0'
    } else if d == 1 {
        '1'
    } else if d == 2 {
        '2'
    } else if d == 3 {
        '3'
    } else if d == 4 {
        '4'
    } else if d == 5 {
        '5'
    } else if d == 6 {
        '6'
    } else if d == 7 {
        '7'
    } else if d == 8 {
        '8'
    } else {
        '9'
    }
}

/// The decimal numeral of `n`, without sign or leading zero.
pub open spec fn decimal_text(n: nat) -> Seq<char>
    decreases n,
{
    if n < 10 {
        seq![digit_char(n)]
    } else {
        decimal_text(n / 10).push(digit_char(n % 10))
    }
}

/// The text of the decimal digit `d`.
fn digit_text(d: usize) -> (text: &'static str)
    requires
        d < 10,
    ensures
        text@ == seq![digit_char(d as nat)],
{
    proof {
        reveal_strlit("0");
        reveal_strlit("1");
        reveal_strlit("2");
        reveal_strlit("3");
        reveal_strlit("4");
        reveal_strlit("5");
        reveal_strlit("6");
        reveal_strlit("7");
        reveal_strlit("8");
        reveal_strlit("9");
    }
    let text: &'static str = if d == 0 {
        "0"
    } else if d == 1 {
        "1"
    } else if d == 2 {
        "2"
    } else if d == 3 {
        "3"
    } else if d == 4 {
        "4"
    } else if d == 5 {
        "5"
    } else if d == 6 {
        "6"
    } else if d == 7 {
        "7"
    } else if d == 8 {
        "8"
    } else {
        "9"
    };
    assert(text@ =~= seq![digit_char(d as nat)]);
    text
}

/// The decimal numeral of `n`.
pub fn decimal(n: usize) -> (text: String)
    ensures
        text@ == decimal_text(n as nat),
    decreases n,
{
    if n < 10 {
        String::from_str(digit_text(n))
    } else {
        let mut text: String = decimal(n / 10);
        text.append(digit_text(n % 10));
        assert(text@ =~= decimal_text(n as nat));
        text
    }
}

/// Whether two texts are the same, character by character.
pub fn same_text(a: &str, b: &str) -> (same: bool)
    ensures
        same == (a@ == b@),
{
    let x: String = a.to_owned();
    let y: String = b.to_owned();
    x == y
}

/// Whether `c` is a decimal digit.
pub open spec fn is_digit(c: char) -> bool {
    '0' <= c && c <= '9'
}

/// Whether `c` is white space of a tag.
pub open spec fn is_space(c: char) -> bool {
    c == ' ' || c == '\n' || c == '\r'
}

/// Where a walk along the text of a token stands.
#[derive(Clone, Copy, Debug, PartialEq, Eq, Structural)]
pub enum Place {
    /// Where a value may begin: at the start of the text, or after a `[`
    /// and any white space.
    Start,
    /// After the sign of a value that may be a number.
    Sign,
    /// Among the digits of a number that began where a value may begin.
    Number,
    /// Anywhere else outside a quoted string: in an identifier, a fraction,
    /// or between the parts of a variable path.
    Other,
    /// Inside a string quoted with `'`.
    Single,
    /// Inside a string quoted with `"`.
    Double,
}

/// Where the walk stands after a character that neither begins nor
/// continues a number.
pub open spec fn place_after(c: char) -> Place {
    if c == '\'' {
        Place::Single
    } else if c == '"' {
        Place::Double
    } else if c == '[' {
        Place::Start
    } else {
        Place::Other
    }
}

/// The number `number` with the digit `c` written after it; 2147483649
/// stands for every number above 2147483648.
pub open spec fn with_digit(number: nat, c: char) -> nat {
    let written = number * 10 + (c as nat - '0' as nat) as nat;
    if written > 2147483648 {
        2147483649
    } else {
        written
    }
}

/// Whether the whole number `number`, below zero where `negative`, lies in
/// -2147483648..=2147483647, the numbers of 32 bits with a sign.
pub open spec fn fits(number: nat, negative: bool) -> bool {
    number <= 2147483647 || (negative && number == 2147483648)
}

/// Whether every whole-number literal that ends at or after place `i` of
/// `text` fits in 32 bits, for a walk that stands at `place` there, has
/// read the sign `negative` and has read the digits of `number`. A
/// whole-number literal is an optional sign and digits that begin where a
/// value may begin and are not followed by a `.` and a digit.
pub open spec fn readable_from(
    text: Seq<char>,
    i: int,
    place: Place,
    negative: bool,
    number: nat,
) -> bool
    decreases text.len() - i,
{
    if i < 0 || i >= text.len() {
        place != Place::Number || fits(number, negative)
    } else {
        let c = text[i];
        match place {
            Place::Single => readable_from(
                text,
                i + 1,
                if c == '\'' {
                    Place::Other
                } else {
                    Place::Single
                },
                false,
                0,
            ),
            Place::Double => readable_from(
                text,
                i + 1,
                if c == '"' {
                    Place::Other
                } else {
                    Place::Double
                },
                false,
                0,
            ),
            Place::Number => if is_digit(c) {
                readable_from(text, i + 1, Place::Number, negative, with_digit(number, c))
            } else if c == '.' && i + 1 < text.len() && is_digit(text[i + 1]) {
                readable_from(text, i + 1, Place::Other, false, 0)
            } else {
                fits(number, negative) && readable_from(text, i + 1, place_after(c), false, 0)
            },
            Place::Start => if is_digit(c) {
                readable_from(text, i + 1, Place::Number, false, with_digit(0, c))
            } else if c == '+' || c == '-' {
                readable_from(text, i + 1, Place::Sign, c == '-', 0)
            } else if is_space(c) {
                readable_from(text, i + 1, Place::Start, false, 0)
            } else {
                readable_from(text, i + 1, place_after(c), false, 0)
            },
            Place::Sign => if is_digit(c) {
                readable_from(text, i + 1, Place::Number, negative, with_digit(0, c))
            } else {
                readable_from(text, i + 1, place_after(c), false, 0)
            },
            Place::Other => readable_from(text, i + 1, place_after(c), false, 0),
        }
    }
}

/// Whether a token with the text `text` can be read as a literal or a
/// value: every whole-number literal in it, be it the token itself or an
/// index between `[` and `]`, fits in 32 bits. Digits in an identifier, in a
/// number with a fraction or in a quoted string are no such literal.
pub open spec fn is_readable(text: Seq<char>) -> bool {
    readable_from(text, 0, Place::Start, false, 0)
}

/// Where the walk stands after a character that neither begins nor
/// continues a number.
fn next_place(c: char) -> (place: Place)
    ensures
        place == place_after(c),
{
    if c == '\'' {
        Place::Single
    } else if c == '"' {
        Place::Double
    } else if c == '[' {
        Place::Start
    } else {
        Place::Other
    }
}

/// The number `number` with the digit `c` written after it.
fn write_digit(number: u64, c: char) -> (written: u64)
    requires
        number <= 2147483649,
        is_digit(c),
    ensures
        written == with_digit(number as nat, c),
        written <= 2147483649,
{
    let written: u64 = number * 10 + (c as u32 - '0' as u32) as u64;
    if written > 2147483648 {
        2147483649
    } else {
        written
    }
}

/// Whether a token with the text `text` can be read as a literal or a
/// value.
pub fn can_read(text: &str) -> (readable: bool)
    ensures
        readable == is_readable(text@),
{
    let n: usize = text.unicode_len();
    let mut place: Place = Place::Start;
    let mut negative: bool = false;
    let mut number: u64 = 0;
    let mut i: usize = 0;
    while i < n
        invariant
            i <= n,
            n == text@.len(),
            number <= 2147483649,
            is_readable(text@) == readable_from(text@, i as int, place, negative, number as nat),
        decreases n - i,
    {
        let c: char = text.get_char(i);
        let digit: bool = '0' <= c && c <= '9';
        match place {
            Place::Single => {
                place = if c == '\'' { Place::Other } else { Place::Single };
                negative = false;
                number = 0;
            },
            Place::Double => {
                place = if c == '"' { Place::Other } else { Place::Double };
                negative = false;
                number = 0;
            },
            Place::Number => {
                if digit {
                    number = write_digit(number, c);
                } else {
                    let mut fraction: bool = false;
                    if c == '.' && i + 1 < n {
                        let d: char = text.get_char(i + 1);
                        fraction = '0' <= d && d <= '9';
                    }
                    if fraction {
                        place = Place::Other;
                    } else {
                        if !(number <= 2147483647 || (negative && number == 2147483648)) {
                            return false;
                        }
                        place = next_place(c);
                    }
                    negative = false;
                    number = 0;
                }
            },
            Place::Start => {
                if digit {
                    place = Place::Number;
                    negative = false;
                    number = write_digit(0, c);
                } else if c == '+' || c == '-' {
                    place = Place::Sign;
                    negative = c == '-';
                    number = 0;
                } else if c == ' ' || c == '\n' || c == '\r' {
                    negative = false;
                    number = 0;
                } else {
                    place = next_place(c);
                    negative = false;
                    number = 0;
                }
            },
            Place::Sign => {
                if digit {
                    place = Place::Number;
                    number = write_digit(0, c);
                } else {
                    place = next_place(c);
                    negative = false;
                    number = 0;
                }
            },
            Place::Other => {
                place = next_place(c);
                negative = false;
                number = 0;
            },
        }
        i = i + 1;
    }
    match place {
        Place::Number => number <= 2147483647 || (negative && number == 2147483648),
        _ => true,
    }
}

} // verus!
