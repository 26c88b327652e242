//! Command-line building blocks shared by the runners: unsigned integer
//! values, read the way the standard library reads them, and the messages a
//! bad flag is refused with.

use vstd::prelude::*;

verus! {

/// Why a value is not an unsigned integer, with the standard library's
/// wording for each reason.
#[derive(Clone, Copy, Debug, PartialEq, Eq, Structural)]
pub enum IntError {
    /// Nothing to parse.
    Empty,
    /// A character that is not a decimal digit, or a sign with no digits.
    InvalidDigit,
    /// More than the target type holds.
    PosOverflow,
}

pub open spec fn int_error_message(error: IntError) -> Seq<char> {
    match error {
        IntError::Empty => "cannot parse integer from empty string"@,
        IntError::InvalidDigit => "invalid digit found in string"@,
        IntError::PosOverflow => "number too large to fit in target type"@,
    }
}

impl IntError {
    pub fn message(self) -> (message: &'static str)
        ensures
            message@ == int_error_message(self),
    {
        match self {
            IntError::Empty => "cannot parse integer from empty string",
            IntError::InvalidDigit => "invalid digit found in string",
            IntError::PosOverflow => "number too large to fit in target type",
        }
    }
}

pub open spec fn is_digit(c: char) -> bool {
    '0' <= c && c <= '9'
}

pub open spec fn digit_value(c: char) -> nat {
    (c as u32 - 48) as nat
}

/// The outcome of reading the first `n` characters of `digits` as a decimal
/// number no larger than `max`: left to right, the first character that is
/// not a digit, or the first digit that takes the value past `max`, decides
/// the error.
pub open spec fn digits_outcome(digits: Seq<char>, n: nat, max: nat) -> Result<nat, IntError>
    decreases n,
{
    if n == 0 {
        Ok(0)
    } else {
        match digits_outcome(digits, (n - 1) as nat, max) {
            Err(error) => Err(error),
            Ok(value) => if !is_digit(digits[n - 1]) {
                Err(IntError::InvalidDigit)
            } else if value * 10 + digit_value(digits[n - 1]) > max {
                Err(IntError::PosOverflow)
            } else {
                Ok(value * 10 + digit_value(digits[n - 1]))
            },
        }
    }
}

/// `text` read as an unsigned decimal number no larger than `max`: an
/// optional leading `+`, then one or more digits, nothing else.
pub open spec fn unsigned_outcome(text: Seq<char>, max: nat) -> Result<nat, IntError> {
    if text.len() == 0 {
        Err(IntError::Empty)
    } else if text[0] == '+' && text.len() == 1 {
        Err(IntError::InvalidDigit)
    } else {
        let digits = if text[0] == '+' {
            text.drop_first()
        } else {
            text
        };
        digits_outcome(digits, digits.len(), max)
    }
}

/// Reads `text` as an unsigned decimal number no larger than `max`.
fn parse_bounded(text: &str, max: u64) -> (parsed: Result<u64, IntError>)
    ensures
        match (parsed, unsigned_outcome(text@, max as nat)) {
            (Ok(value), Ok(expected)) => value == expected,
            (Err(error), Err(expected)) => error == expected,
            _ => false,
        },
{
    let n = text.unicode_len();
    if n == 0 {
        return Err(IntError::Empty);
    }
    let signed = text.get_char(0) == '+';
    if signed && n == 1 {
        return Err(IntError::InvalidDigit);
    }
    let start: usize = if signed {
        1
    } else {
        0
    };
    let ghost digits = if signed {
        text@.drop_first()
    } else {
        text@
    };
    let mut value: u64 = 0;
    let mut i: usize = start;
    while i < n
        invariant
            n == text@.len(),
            n > 0,
            !(text@[0] == '+' && n == 1),
            digits == (if text@[0] == '+' {
                text@.drop_first()
            } else {
                text@
            }),
            start <= i <= n,
            digits.len() == n - start,
            forall|k: int| 0 <= k < digits.len() ==> #[trigger] digits[k] == text@[k + start],
            digits_outcome(digits, (i - start) as nat, max as nat) == Ok::<nat, IntError>(
                value as nat,
            ),
        decreases n - i,
    {
        let c = text.get_char(i);
        assert(digits[i - start] == c);
        if !('0' <= c && c <= '9') {
            assert(digits_outcome(digits, (i - start + 1) as nat, max as nat) == Err::<
                nat,
                IntError,
            >(IntError::InvalidDigit));
            proof {
                lemma_outcome_stays_failed(digits, (i - start + 1) as nat, digits.len(), max as nat);
            }
            return Err(IntError::InvalidDigit);
        }
        let d: u64 = (c as u32 - 48) as u64;
        let next: u128 = (value as u128) * 10 + (d as u128);
        if next > max as u128 {
            assert(digits_outcome(digits, (i - start + 1) as nat, max as nat) == Err::<
                nat,
                IntError,
            >(IntError::PosOverflow));
            proof {
                lemma_outcome_stays_failed(digits, (i - start + 1) as nat, digits.len(), max as nat);
            }
            return Err(IntError::PosOverflow);
        }
        value = next as u64;
        i = i + 1;
    }
    Ok(value)
}

/// Once a prefix fails, every longer prefix fails the same way.
proof fn lemma_outcome_stays_failed(digits: Seq<char>, failed: nat, n: nat, max: nat)
    requires
        failed <= n,
        digits_outcome(digits, failed, max) is Err,
    ensures
        digits_outcome(digits, n, max) == digits_outcome(digits, failed, max),
    decreases n - failed,
{
    if failed < n {
        lemma_outcome_stays_failed(digits, failed, (n - 1) as nat, max);
    }
}

/// Reads a `u64` the way `str::parse::<u64>` does.
pub fn parse_u64(text: &str) -> (parsed: Result<u64, IntError>)
    ensures
        match (parsed, unsigned_outcome(text@, u64::MAX as nat)) {
            (Ok(value), Ok(expected)) => value == expected,
            (Err(error), Err(expected)) => error == expected,
            _ => false,
        },
{
    parse_bounded(text, u64::MAX)
}

/// Reads a `usize` the way `str::parse::<usize>` does.
pub fn parse_usize(text: &str) -> (parsed: Result<usize, IntError>)
    ensures
        match (parsed, unsigned_outcome(text@, usize::MAX as nat)) {
            (Ok(value), Ok(expected)) => value == expected,
            (Err(error), Err(expected)) => error == expected,
            _ => false,
        },
{
    match parse_bounded(text, usize::MAX as u64) {
        Ok(value) => Ok(value as usize),
        Err(error) => Err(error),
    }
}

/// The refusal of a flag whose value does not parse.
pub open spec fn invalid_value_message(flag: Seq<char>, error: IntError) -> Seq<char> {
    "invalid value for "@ + flag + ": "@ + int_error_message(error)
}

pub fn invalid_value(flag: &str, error: IntError) -> (message: String)
    ensures
        message@ == invalid_value_message(flag@, error),
{
    let mut message = String::from_str("invalid value for ");
    message.append(flag);
    message.append(": ");
    message.append(error.message());
    message
}

/// The refusal of a flag given last, with no value after it.
pub open spec fn missing_value_message(flag: Seq<char>) -> Seq<char> {
    "missing value for "@ + flag
}

pub fn missing_value(flag: &str) -> (message: String)
    ensures
        message@ == missing_value_message(flag@),
{
    let mut message = String::from_str("missing value for ");
    message.append(flag);
    message
}

/// The refusal of a flag no runner knows.
pub open spec fn unknown_option_message(flag: Seq<char>) -> Seq<char> {
    "unknown option: "@ + flag
}

pub fn unknown_option(flag: &str) -> (message: String)
    ensures
        message@ == unknown_option_message(flag@),
{
    let mut message = String::from_str("unknown option: ");
    message.append(flag);
    message
}

/// Whether a flag asks for the usage text.
pub open spec fn is_help_flag(flag: Seq<char>) -> bool {
    flag == "--help"@ || flag == "-h"@
}

pub fn is_help(flag: &str) -> (help: bool)
    ensures
        help == is_help_flag(flag@),
{
    crate::text::str_eq(flag, "--help") || crate::text::str_eq(flag, "-h")
}

/// `prefix`, the value, then `suffix`.
pub fn around(prefix: &str, value: &str, suffix: &str) -> (message: String)
    ensures
        message@ == prefix@ + value@ + suffix@,
{
    let mut message = String::from_str(prefix);
    message.append(value);
    message.append(suffix);
    message
}

/// The text of each argument.
pub open spec fn args_text(args: Seq<String>) -> Seq<Seq<char>> {
    args.map_values(|arg: String| arg@)
}

} // verus!
