//! The settings of a run as they come from a command line.

use vstd::prelude::*;
use vstd::string::StringExecFns;
use vstd::utf8::encode_utf8;

verus! {

/// The width of the grid when none is given.
pub const DEFAULT_WIDTH: usize = 200;

/// The height of the grid when none is given.
pub const DEFAULT_HEIGHT: usize = 200;

/// The number of generations when none is given.
pub const DEFAULT_STEPS: usize = 500;

/// Whether a byte is one of the characters `0` to `9`.
pub open spec fn is_digit(byte: u8) -> bool {
    48 <= byte <= 57
}

/// The number that a run of decimal digits stands for.
pub open spec fn digits_value(digits: Seq<u8>) -> nat
    decreases digits.len(),
{
    if digits.len() == 0 {
        0
    } else {
        (digits_value(digits.drop_last()) * 10 + (digits.last() - 48)) as nat
    }
}

/// The text without the plus sign that may lead it.
pub open spec fn unsigned_part(text: Seq<u8>) -> Seq<u8> {
    if text.len() > 0 && text[0] == 43 {
        text.subrange(1, text.len() as int)
    } else {
        text
    }
}

/// The number that a text stands for: one or more decimal digits, after
/// at most one plus sign, whose value fits the machine word. Any other text
/// stands for no number.
pub open spec fn number_of(text: Seq<u8>) -> Option<usize> {
    let digits = unsigned_part(text);
    if digits.len() > 0 && (forall|i: int| 0 <= i < digits.len() ==> is_digit(#[trigger] digits[i]))
        && digits_value(digits) <= usize::MAX {
        Some(digits_value(digits) as usize)
    } else {
        None
    }
}

/// A run of digits is worth at least as much as any run it begins with.
proof fn lemma_digits_value_grows(digits: Seq<u8>, shorter: int)
    requires
        0 <= shorter <= digits.len(),
        forall|i: int| 0 <= i < digits.len() ==> is_digit(#[trigger] digits[i]),
    ensures
        digits_value(digits.take(shorter)) <= digits_value(digits),
    decreases digits.len() - shorter,
{
    if shorter == digits.len() {
        assert(digits.take(shorter) =~= digits);
    } else {
        let longer = digits.take(shorter + 1);
        assert(longer.drop_last() =~= digits.take(shorter));
        assert(is_digit(digits[shorter]));
        assert(longer.last() == digits[shorter]);
        lemma_digits_value_grows(digits, shorter + 1);
    }
}

/// Reads a number from a text, as `number_of` says.
pub fn parse_number(text: &str) -> (number: Option<usize>)
    ensures
        number == number_of(encode_utf8(text@)),
{
    let bytes = text.as_bytes();
    let start: usize = if bytes.len() > 0 && bytes[0] == 43 {
        1
    } else {
        0
    };
    let ghost digits = unsigned_part(bytes@);
    if start == bytes.len() {
        return None;
    }
    let mut value: usize = 0;
    let mut at: usize = start;
    while at < bytes.len()
        invariant
            start <= at <= bytes.len(),
            bytes@ == encode_utf8(text@),
            digits == unsigned_part(bytes@),
            digits.len() == bytes@.len() - start,
            forall|i: int| 0 <= i < digits.len() ==> digits[i] == bytes@[i + start],
            forall|i: int| 0 <= i < at - start ==> is_digit(#[trigger] digits[i]),
            value == digits_value(digits.take(at - start)),
        decreases bytes.len() - at,
    {
        let byte = bytes[at];
        if byte < 48 || byte > 57 {
            assert(!is_digit(digits[at - start]));
            return None;
        }
        let ghost longer = digits.take(at - start + 1);
        assert(longer.drop_last() =~= digits.take(at - start));
        assert(longer.last() == byte);
        let next = match value.checked_mul(10) {
            Some(tens) => tens.checked_add((byte - 48) as usize),
            None => None,
        };
        match next {
            Some(sum) => {
                value = sum;
            },
            None => {
                proof {
                    if forall|i: int| 0 <= i < digits.len() ==> is_digit(#[trigger] digits[i]) {
                        lemma_digits_value_grows(digits, at - start + 1);
                    }
                }
                return None;
            },
        }
        at += 1;
    }
    assert(digits.take(at - start) =~= digits);
    Some(value)
}

/// The settings of a run.
#[derive(Debug, PartialEq, Eq)]
pub struct Config {
    pub username: String,
    pub password: String,
    pub width: usize,
    pub height: usize,
    pub steps: usize,
    pub output_file: String,
}

/// The number given at `position` of the arguments, or `fallback` when
/// there is no argument there or it stands for no number.
pub open spec fn setting(args: Seq<String>, position: int, fallback: usize) -> usize {
    if position < args.len() {
        match number_of(encode_utf8(args[position]@)) {
            Some(number) => number,
            None => fallback,
        }
    } else {
        fallback
    }
}

/// Reads the number at `position` of the arguments, if there is one.
fn read_setting(args: &Vec<String>, position: usize, fallback: usize) -> (number: usize)
    ensures
        number == setting(args@, position as int, fallback),
{
    if position < args.len() {
        match parse_number(args[position].as_str()) {
            Some(number) => number,
            None => fallback,
        }
    } else {
        fallback
    }
}

/// Reads the settings of a run from the arguments of the program, the
/// first of which is the program's own name: user name and password, then,
/// each optional, width, height and number of steps. Fewer than two
/// arguments after the name are an error; a size or a number of steps that
/// is missing or is no number takes its default.
pub fn parse_args(args: &Vec<String>) -> (result: Result<Config, String>)
    ensures
        result is Err <==> args@.len() < 3,
        result matches Err(message) ==> message@ == "Not enough arguments."@,
        result matches Ok(config) ==> {
            &&& config.username@ == args@[1]@
            &&& config.password@ == args@[2]@
            &&& config.width == setting(args@, 3, DEFAULT_WIDTH)
            &&& config.height == setting(args@, 4, DEFAULT_HEIGHT)
            &&& config.steps == setting(args@, 5, DEFAULT_STEPS)
            &&& config.output_file@ == "proof.ppm"@
        },
{
    if args.len() < 3 {
        return Err(String::from_str("Not enough arguments."));
    }
    let username = args[1].clone();
    let password = args[2].clone();
    let width = read_setting(args, 3, DEFAULT_WIDTH);
    let height = read_setting(args, 4, DEFAULT_HEIGHT);
    let steps = read_setting(args, 5, DEFAULT_STEPS);
    let output_file = String::from_str("proof.ppm");
    Ok(Config { username, password, width, height, steps, output_file })
}

} // verus!
