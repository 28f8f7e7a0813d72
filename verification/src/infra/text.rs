//! Numbers as text.

use vstd::prelude::*;
use vstd::string::StringExecFns;

verus! {

/// The character that writes a value below ten.
pub open spec fn digit(value: nat) -> char {
    if value == 0 {
        '0'
    } else if value == 1 {
        '1'
    } else if value == 2 {
        '2'
    } else if value == 3 {
        '3'
    } else if value == 4 {
        '4'
    } else if value == 5 {
        '5'
    } else if value == 6 {
        '6'
    } else if value == 7 {
        '7'
    } else if value == 8 {
        '8'
    } else {
        '9'
    }
}

/// The decimal writing of a number, without sign or leading zero.
pub open spec fn decimal(value: nat) -> Seq<char>
    decreases value,
{
    if value < 10 {
        seq![digit(value)]
    } else {
        decimal(value / 10).push(digit(value % 10))
    }
}

fn digit_text(value: u64) -> (text: &'static str)
    requires
        value < 10,
    ensures
        text@ == seq![digit(value as nat)],
{
    proof {
        reveal_strlit("0");
        reveal_strlit("1");
        reveal_strlit("2");
        reveal_strlit("3");
        reveal_strlit("4");
        reveal_strlit("5");
        reveal_strlit("6");
        reveal_strlit("7");
        reveal_strlit("8");
        reveal_strlit("9");
    }
    let text = if value == 0 {
        "0"
    } else if value == 1 {
        "1"
    } else if value == 2 {
        "2"
    } else if value == 3 {
        "3"
    } else if value == 4 {
        "4"
    } else if value == 5 {
        "5"
    } else if value == 6 {
        "6"
    } else if value == 7 {
        "7"
    } else if value == 8 {
        "8"
    } else {
        "9"
    };
    assert(text@ =~= seq![digit(value as nat)]);
    text
}

/// Writes a number in decimal.
pub fn decimal_number(value: u64) -> (text: String)
    ensures
        text@ == decimal(value as nat),
    decreases value,
{
    if value < 10 {
        String::from_str(digit_text(value))
    } else {
        let text = decimal_number(value / 10).concat(digit_text(value % 10));
        assert(text@ =~= decimal(value as nat));
        text
    }
}

/// Writes a port number in decimal.
pub fn decimal_text(value: u16) -> (text: String)
    ensures
        text@ == decimal(value as nat),
{
    decimal_number(value as u64)
}

/// The value of a decimal digit; none for any other character.
pub open spec fn digit_value(character: char) -> Option<nat> {
    if '0' <= character <= '9' {
        Some((character as nat - '0' as nat) as nat)
    } else {
        None
    }
}

/// The number that a run of decimal digits writes; none for an empty run
/// and for one that holds anything but digits.
pub open spec fn number(digits: Seq<char>) -> Option<nat>
    decreases digits.len(),
{
    if digits.len() == 0 {
        None
    } else if digits.len() == 1 {
        digit_value(digits[0])
    } else {
        match (number(digits.drop_last()), digit_value(digits.last())) {
            (Some(high), Some(low)) => Some(10 * high + low),
            _ => None,
        }
    }
}

/// The port that a text writes: decimal digits, after a plus sign or
/// without one, that write a number a port can be.
pub open spec fn port_number(text: Seq<char>) -> Option<u16> {
    let digits = if text.len() > 0 && text[0] == '+' {
        text.skip(1)
    } else {
        text
    };
    match number(digits) {
        Some(value) => if value <= u16::MAX {
            Some(value as u16)
        } else {
            None
        },
        None => None,
    }
}

fn value_of_digit(character: char) -> (value: Option<u32>)
    ensures
        match value {
            Some(value) => digit_value(character) == Some(value as nat) && value < 10,
            None => digit_value(character) is None,
        },
{
    if '0' <= character && character <= '9' {
        Some(character as u32 - '0' as u32)
    } else {
        None
    }
}

/// Reads the port that the first `length` characters of the text write.
pub fn parse_port(text: &str, length: usize) -> (port: Option<u16>)
    requires
        length <= text@.len(),
    ensures
        port == port_number(text@.take(length as int)),
{
    let ghost whole = text@.take(length as int);
    let start: usize = if length > 0 && text.get_char(0) == '+' {
        1
    } else {
        0
    };
    let ghost digits = whole.skip(start as int);
    proof {
        assert(whole.skip(0) =~= whole);
    }
    if start == length {
        return None;
    }
    let mut value: u32 = 0;
    let mut read: usize = start;
    while read < length
        invariant
            start <= read <= length <= text@.len(),
            start < length,
            whole == text@.take(length as int),
            digits == whole.skip(start as int),
            start == (if whole.len() > 0 && whole[0] == '+' {
                1int
            } else {
                0int
            }),
            read > start ==> number(digits.take(read - start)) == Some(value as nat),
            read == start ==> value == 0,
            value <= u16::MAX,
        decreases length - read,
    {
        let ghost before = digits.take(read - start);
        let ghost after = digits.take(read - start + 1);
        proof {
            assert(after.drop_last() =~= before);
            assert(after.last() == text@[read as int]);
            assert(digits.len() == length - start);
            assert(after.len() == read - start + 1);
            assert(after.len() == 1 ==> after[0] == after.last());
        }
        match value_of_digit(text.get_char(read)) {
            Some(low) => {
                let next = 10 * value + low;
                assert(number(after) == Some(next as nat));
                if next > 65535 {
                    proof {
                        lemma_number_grows(digits, read - start + 1);
                        assert(whole.skip(0) =~= whole);
                        assert(number(digits) is None || number(digits).unwrap() > 65535);
                    }
                    return None;
                }
                value = next;
            },
            None => {
                proof {
                    assert(number(after) is None);
                    lemma_number_needs_digits(digits, read - start + 1);
                    assert(whole.skip(0) =~= whole);
                    assert(number(digits) is None);
                }
                return None;
            },
        }
        read = read + 1;
    }
    proof {
        assert(digits.take(digits.len() as int) =~= digits);
    }
    Some(value as u16)
}

/// A run of digits whose beginning writes no number writes none.
pub proof fn lemma_number_needs_digits(digits: Seq<char>, length: int)
    requires
        0 < length <= digits.len(),
        number(digits.take(length)) is None,
    ensures
        number(digits) is None,
    decreases digits.len(),
{
    if length < digits.len() {
        assert(digits.drop_last().take(length) =~= digits.take(length));
        lemma_number_needs_digits(digits.drop_last(), length);
    } else {
        assert(digits.take(length) =~= digits);
    }
}

/// A run of digits writes no smaller number than its beginning does.
pub proof fn lemma_number_grows(digits: Seq<char>, length: int)
    requires
        0 < length <= digits.len(),
    ensures
        match (number(digits.take(length)), number(digits)) {
            (Some(beginning), Some(whole)) => beginning <= whole,
            _ => true,
        },
    decreases digits.len(),
{
    if length < digits.len() {
        assert(digits.drop_last().take(length) =~= digits.take(length));
        lemma_number_grows(digits.drop_last(), length);
    } else {
        assert(digits.take(length) =~= digits);
    }
}

} // verus!
