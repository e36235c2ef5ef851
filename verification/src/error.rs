//! The errors of the indexer.

use vstd::prelude::*;
use vstd::string::StringExecFns;

verus! {

/// The decimal digit of a value below 10.
pub open spec fn digit_char(digit: int) -> char {
    seq!['0', '1', '2', '3', '4', '5', '6', '7', '8', '9'][digit]
}

/// The decimal digits of a natural number, without leading zeros.
pub open spec fn decimal_of_nat(value: nat) -> Seq<char>
    decreases value,
{
    if value < 10 {
        seq![digit_char(value as int)]
    } else {
        decimal_of_nat(value / 10).push(digit_char((value % 10) as int))
    }
}

/// The decimal text of an integer: its digits, after a minus sign where it
/// is negative.
pub open spec fn decimal_of(value: int) -> Seq<char> {
    if value < 0 {
        seq!['-'] + decimal_of_nat((-value) as nat)
    } else {
        decimal_of_nat(value as nat)
    }
}

/// The text that reports `error`.
pub open spec fn message_of(error: IndexerError) -> Seq<char> {
    match error {
        IndexerError::ConfigFileNotFound => "Config file not found"@,
        IndexerError::InvalidHeight(height) => "Invalid height "@ + decimal_of(height as int),
        IndexerError::Sqlx(message) => "Sqlx error: "@ + message@,
    }
}

fn digit_text(digit: u64) -> (res: &'static str)
    requires
        digit < 10,
    ensures
        res@ == seq![digit_char(digit as int)],
{
    proof {
        reveal_strlit("0");
        reveal_strlit("1");
        reveal_strlit("2");
        reveal_strlit("3");
        reveal_strlit("4");
        reveal_strlit("5");
        reveal_strlit("6");
        reveal_strlit("7");
        reveal_strlit("8");
        reveal_strlit("9");
    }
    let text = if digit == 0 {
        "0"
    } else if digit == 1 {
        "1"
    } else if digit == 2 {
        "2"
    } else if digit == 3 {
        "3"
    } else if digit == 4 {
        "4"
    } else if digit == 5 {
        "5"
    } else if digit == 6 {
        "6"
    } else if digit == 7 {
        "7"
    } else if digit == 8 {
        "8"
    } else {
        "9"
    };
    assert(text@ =~= seq![digit_char(digit as int)]);
    text
}

fn append_digits(text: &mut String, value: u64)
    ensures
        final(text)@ == old(text)@ + decimal_of_nat(value as nat),
    decreases value,
{
    if value >= 10 {
        append_digits(text, value / 10);
    }
    text.append(digit_text(value % 10));
    assert(text@ =~= old(text)@ + decimal_of_nat(value as nat));
}

/// The decimal text of `value`.
pub fn decimal(value: i64) -> (res: String)
    ensures
        res@ == decimal_of(value as int),
{
    let mut text = String::new();
    if value < 0 {
        proof {
            reveal_strlit("-");
        }
        text.append("-");
        let magnitude: u64 = if value == i64::MIN {
            0x8000_0000_0000_0000
        } else {
            (-value) as u64
        };
        append_digits(&mut text, magnitude);
        assert(text@ =~= decimal_of(value as int));
    } else {
        append_digits(&mut text, value as u64);
        assert(text@ =~= decimal_of(value as int));
    }
    text
}

#[derive(Debug, Clone, PartialEq, Eq)]
pub enum IndexerError {
    /// The configuration file could not be read.
    ConfigFileNotFound,
    /// The height to start from is not above zero, or a height is not one
    /// of the chain.
    InvalidHeight(i64),
    /// The store refused a statement or could not be reached; the text is
    /// the store's own message.
    Sqlx(String),
}

/// The status of every error response.
pub const INTERNAL_SERVER_ERROR: u16 = 500;

/// The body of the response to `error`: the store's message for an error of
/// the store, a fixed text for every other.
pub open spec fn response_body(error: IndexerError) -> Seq<char> {
    match error {
        IndexerError::Sqlx(message) => message@,
        _ => "Internal Error"@,
    }
}

impl IndexerError {
    /// The text that reports this error.
    pub fn message(&self) -> (res: String)
        ensures
            res@ == message_of(*self),
    {
        match self {
            IndexerError::ConfigFileNotFound => "Config file not found".to_owned(),
            IndexerError::InvalidHeight(height) => {
                let number = decimal(*height);
                "Invalid height ".to_owned().concat(number.as_str())
            },
            IndexerError::Sqlx(message) => "Sqlx error: ".to_owned().concat(message.as_str()),
        }
    }

    /// Status code and body of the HTTP response that reports this error.
    pub fn into_response(self) -> (res: (u16, String))
        ensures
            res.0 == INTERNAL_SERVER_ERROR,
            res.1@ == response_body(self),
    {
        match self {
            IndexerError::Sqlx(message) => (INTERNAL_SERVER_ERROR, message),
            _ => (INTERNAL_SERVER_ERROR, "Internal Error".to_owned()),
        }
    }
}

} // verus!
