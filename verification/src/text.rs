//! Numbers and errors as text.

use crate::protocol::ProtocolError;
use vstd::prelude::*;
use vstd::string::*;

verus! {

/// The digit of a number below 16.
pub open spec fn digit(value: nat) -> char {
    if value < 10 {
        (('0' as nat) + value) as char
    } else {
        (('a' as nat) + value - 10) as char
    }
}

/// A number in decimal, without leading zeros.
pub open spec fn decimal(value: nat) -> Seq<char>
    decreases value,
{
    if value < 10 {
        seq![digit(value)]
    } else {
        decimal(value / 10).push(digit(value % 10))
    }
}

/// A byte in hexadecimal: `0x` and two digits.
pub open spec fn hexadecimal(value: u8) -> Seq<char> {
    seq!['0', 'x', digit((value / 16) as nat), digit((value % 16) as nat)]
}

fn digit_text(value: u8) -> (text: &'static str)
    requires
        value < 16,
    ensures
        text@ == seq![digit(value as nat)],
{
    proof {
        reveal_strlit("0");
        reveal_strlit("1");
        reveal_strlit("2");
        reveal_strlit("3");
        reveal_strlit("4");
        reveal_strlit("5");
        reveal_strlit("6");
        reveal_strlit("7");
        reveal_strlit("8");
        reveal_strlit("9");
        reveal_strlit("a");
        reveal_strlit("b");
        reveal_strlit("c");
        reveal_strlit("d");
        reveal_strlit("e");
        reveal_strlit("f");
    }
    let text: &'static str = match value {
        0 => "0",
        1 => "1",
        2 => "2",
        3 => "3",
        4 => "4",
        5 => "5",
        6 => "6",
        7 => "7",
        8 => "8",
        9 => "9",
        10 => "a",
        11 => "b",
        12 => "c",
        13 => "d",
        14 => "e",
        _ => "f",
    };
    assert(text@ =~= seq![digit(value as nat)]);
    text
}

/// Writes a number in decimal.
pub fn write_decimal(value: u64) -> (text: String)
    ensures
        text@ == decimal(value as nat),
    decreases value,
{
    if value < 10 {
        digit_text(value as u8).to_owned()
    } else {
        let mut text: String = write_decimal(value / 10);
        text.append(digit_text((value % 10) as u8));
        assert(text@ =~= decimal(value as nat));
        text
    }
}

/// Writes a byte in hexadecimal.
pub fn write_hexadecimal(value: u8) -> (text: String)
    ensures
        text@ == hexadecimal(value),
{
    proof {
        reveal_strlit("0x");
    }
    let mut text: String = "0x".to_owned();
    text.append(digit_text(value / 16));
    text.append(digit_text(value % 16));
    assert(text@ =~= hexadecimal(value));
    text
}

impl ProtocolError {
    /// What the error says.
    pub open spec fn text(self) -> Seq<char> {
        match self {
            ProtocolError::InvalidLimits(detail) => "invalid limits: "@ + detail@,
            ProtocolError::FrameTooShort => "frame is shorter than the common header"@,
            ProtocolError::UnknownVersion(version) => "unsupported protocol version "@ + decimal(
                version as nat,
            ),
            ProtocolError::UnknownKind(kind) => "unknown message kind "@ + hexadecimal(kind),
            ProtocolError::ZeroRequestId => "client request ID must be nonzero"@,
            ProtocolError::TruncatedField => "frame ends inside a declared field"@,
            ProtocolError::TrailingBytes => "frame contains unexpected trailing bytes"@,
            ProtocolError::InvalidClientId
                => "client ID is empty, too long, or contains invalid bytes"@,
            ProtocolError::InvalidTopic => "topic is empty, too long, or contains invalid bytes"@,
            ProtocolError::PayloadTooLarge => "publish payload exceeds the configured limit"@,
            ProtocolError::EncodedFrameTooLarge
                => "server message exceeds the configured frame limit"@,
            ProtocolError::UnexpectedRequestId => "message contains an unexpected request ID"@,
            ProtocolError::InvalidUtf8 => "message contains invalid UTF-8"@,
        }
    }

    /// What the error says.
    pub fn describe(&self) -> (text: String)
        ensures
            text@ == self.text(),
    {
        match self {
            ProtocolError::InvalidLimits(detail) => {
                let mut text: String = "invalid limits: ".to_owned();
                text.append(detail);
                text
            },
            ProtocolError::FrameTooShort => "frame is shorter than the common header".to_owned(),
            ProtocolError::UnknownVersion(version) => {
                let mut text: String = "unsupported protocol version ".to_owned();
                text.append(write_decimal(*version as u64).as_str());
                text
            },
            ProtocolError::UnknownKind(kind) => {
                let mut text: String = "unknown message kind ".to_owned();
                text.append(write_hexadecimal(*kind).as_str());
                text
            },
            ProtocolError::ZeroRequestId => "client request ID must be nonzero".to_owned(),
            ProtocolError::TruncatedField => "frame ends inside a declared field".to_owned(),
            ProtocolError::TrailingBytes => "frame contains unexpected trailing bytes".to_owned(),
            ProtocolError::InvalidClientId => {
                "client ID is empty, too long, or contains invalid bytes".to_owned()
            },
            ProtocolError::InvalidTopic => {
                "topic is empty, too long, or contains invalid bytes".to_owned()
            },
            ProtocolError::PayloadTooLarge => {
                "publish payload exceeds the configured limit".to_owned()
            },
            ProtocolError::EncodedFrameTooLarge => {
                "server message exceeds the configured frame limit".to_owned()
            },
            ProtocolError::UnexpectedRequestId => {
                "message contains an unexpected request ID".to_owned()
            },
            ProtocolError::InvalidUtf8 => "message contains invalid UTF-8".to_owned(),
        }
    }
}

/// The number that decimal digits stand for.
pub open spec fn value_of(digits: Seq<char>) -> int
    decreases digits.len(),
{
    if digits.len() == 0 {
        0
    } else {
        value_of(digits.drop_last()) * 10 + (digits.last() as int - 48)
    }
}

/// A number in decimal is digits that stand for the number, the first of them not zero unless it is
/// the only one.
pub proof fn decimals_stand_for_their_number(value: nat)
    ensures
        value_of(decimal(value)) == value,
        decimal(value).len() >= 1,
        forall|i: int| 0 <= i < decimal(value).len() ==> 48 <= #[trigger] decimal(value)[i] as int
            <= 57,
        decimal(value).len() > 1 ==> decimal(value)[0] as int != 48,
        value < 10 <==> decimal(value).len() == 1,
    decreases value,
{
    reveal_with_fuel(value_of, 2);
    if value < 10 {
        assert(decimal(value).drop_last() =~= Seq::empty());
    } else {
        decimals_stand_for_their_number(value / 10);
        assert(decimal(value).drop_last() =~= decimal(value / 10));
        assert(value_of(decimal(value / 10)) == value / 10);
        if decimal(value / 10).len() == 1 {
            assert(value_of(decimal(value / 10).drop_last()) == 0);
        }
    }
}

/// A byte in hexadecimal is `0x` and two digits, lower case, for the high and the low half.
pub proof fn hexadecimals_stand_for_their_byte(value: u8)
    ensures
        hexadecimal(value).len() == 4,
        hexadecimal(value)[0] == '0',
        hexadecimal(value)[1] == 'x',
        hexadecimal(value)[2] as int == value / 16 + if value / 16 < 10 {
            48int
        } else {
            87int
        },
        hexadecimal(value)[3] as int == value % 16 + if value % 16 < 10 {
            48int
        } else {
            87int
        },
{
}

/// What each error says.
pub proof fn protocol_errors_say(error: ProtocolError)
    ensures
        error matches ProtocolError::InvalidLimits(detail) ==> error.text() == "invalid limits: "@
            + detail@,
        error is FrameTooShort ==> error.text() == "frame is shorter than the common header"@,
        error matches ProtocolError::UnknownVersion(version) ==> error.text()
            == "unsupported protocol version "@ + decimal(version as nat),
        error matches ProtocolError::UnknownKind(kind) ==> error.text() == "unknown message kind "@
            + hexadecimal(kind),
        error is ZeroRequestId ==> error.text() == "client request ID must be nonzero"@,
        error is TruncatedField ==> error.text() == "frame ends inside a declared field"@,
        error is TrailingBytes ==> error.text() == "frame contains unexpected trailing bytes"@,
        error is InvalidClientId ==> error.text()
            == "client ID is empty, too long, or contains invalid bytes"@,
        error is InvalidTopic ==> error.text()
            == "topic is empty, too long, or contains invalid bytes"@,
        error is PayloadTooLarge ==> error.text()
            == "publish payload exceeds the configured limit"@,
        error is EncodedFrameTooLarge ==> error.text()
            == "server message exceeds the configured frame limit"@,
        error is UnexpectedRequestId ==> error.text()
            == "message contains an unexpected request ID"@,
        error is InvalidUtf8 ==> error.text() == "message contains invalid UTF-8"@,
{
}

} // verus!
