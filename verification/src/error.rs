//! Errors shared by the client, the server and the message layer.

use vstd::prelude::*;

verus! {

/// Errors raised by the game server, its clients and the message layer.
#[derive(Debug, Clone, PartialEq, Eq)]
pub enum TBGError {
    /* Shared */
    FailSerialize,
    TimeOut,
    InvalidID,
    /* Server */
    InvalidName,
    SendFailure,
    FailToConnect(String),
    FailToInitializeServer(String),
    /* Message Passing */
    DataStreamEarlyEOF,
    MessageOverflow(usize),
    SizeMismatch(usize, usize),
    FailDeserialize,
    EmptyMessage,
    /* Player List */
    DuplicateEntry,
    /* Anything else, with its own text */
    Other(String),
}

/// The character of a decimal digit `d` (`0 <= d < 10`).
pub open spec fn digit_char(d: nat) -> char {
    (('0' as int) + d) as char
}

/// The decimal representation of `n`, most significant digit first, no
/// leading zeros (`0` is written as a single `0`).
pub open spec fn decimal(n: nat) -> Seq<char>
    decreases n,
{
    if n < 10 {
        seq![digit_char(n)]
    } else {
        decimal(n / 10).push(digit_char(n % 10))
    }
}

/// The human-readable text of an error.
pub open spec fn error_text(e: TBGError) -> Seq<char> {
    match e {
        TBGError::FailSerialize => "Failure to serialize string."@,
        TBGError::TimeOut => "No message received before timeout ended."@,
        TBGError::InvalidID => "No pair found for given ID."@,
        TBGError::InvalidName => "Name is already taken or otherwise invalid"@,
        TBGError::SendFailure => "Failed to send message to client."@,
        TBGError::FailToConnect(ip) => "IP "@ + ip@ + " failed to connect to server."@,
        TBGError::FailToInitializeServer(e) => "Fail to initialize server: "@ + e@,
        TBGError::DataStreamEarlyEOF => "Data stream ended early"@,
        TBGError::MessageOverflow(size) =>
            "Incoming message size of "@ + decimal(size as nat) + " bytes too large"@,
        TBGError::SizeMismatch(read, expected) =>
            "Read "@ + decimal(read as nat) + " bytes but expected "@ + decimal(expected as nat)
                + " bytes."@,
        TBGError::FailDeserialize => "Failure to deserialize message."@,
        TBGError::EmptyMessage => "Message is empty."@,
        TBGError::DuplicateEntry => "Name is already taken or otherwise invalid."@,
        TBGError::Other(msg) => msg@,
    }
}

/// The one-character string of a decimal digit.
fn digit_str(d: usize) -> (s: &'static str)
    requires
        d < 10,
    ensures
        s@ == seq![digit_char(d as nat)],
{
    proof {
        reveal_strlit("0");
        reveal_strlit("1");
        reveal_strlit("2");
        reveal_strlit("3");
        reveal_strlit("4");
        reveal_strlit("5");
        reveal_strlit("6");
        reveal_strlit("7");
        reveal_strlit("8");
        reveal_strlit("9");
    }
    match d {
        0 => "0",
        1 => "1",
        2 => "2",
        3 => "3",
        4 => "4",
        5 => "5",
        6 => "6",
        7 => "7",
        8 => "8",
        _ => "9",
    }
}

/// Appends the decimal representation of `n` to `s`.
pub fn push_decimal(s: &mut String, n: usize)
    ensures
        final(s)@ == old(s)@ + decimal(n as nat),
    decreases n,
{
    if n >= 10 {
        push_decimal(s, n / 10);
    }
    s.append(digit_str(n % 10));
    proof {
        let d = seq![digit_char((n % 10) as nat)];
        if n >= 10 {
            assert(old(s)@ + decimal((n / 10) as nat) + d =~= old(s)@ + decimal(n as nat));
        } else {
            assert(decimal(n as nat) == d);
        }
    }
}

impl TBGError {
    /// The text the error is displayed with.
    pub fn to_display_string(&self) -> (text: String)
        ensures
            text@ == error_text(*self),
    {
        match self {
            TBGError::FailSerialize => String::from_str("Failure to serialize string."),
            TBGError::TimeOut => String::from_str("No message received before timeout ended."),
            TBGError::InvalidID => String::from_str("No pair found for given ID."),
            TBGError::InvalidName => String::from_str("Name is already taken or otherwise invalid"),
            TBGError::SendFailure => String::from_str("Failed to send message to client."),
            TBGError::FailToConnect(ip) => {
                let mut s = String::from_str("IP ");
                s.append(ip.as_str());
                s.append(" failed to connect to server.");
                s
            },
            TBGError::FailToInitializeServer(e) => {
                let mut s = String::from_str("Fail to initialize server: ");
                s.append(e.as_str());
                s
            },
            TBGError::DataStreamEarlyEOF => String::from_str("Data stream ended early"),
            TBGError::MessageOverflow(size) => {
                let mut s = String::from_str("Incoming message size of ");
                push_decimal(&mut s, *size);
                s.append(" bytes too large");
                s
            },
            TBGError::SizeMismatch(read, expected) => {
                let mut s = String::from_str("Read ");
                push_decimal(&mut s, *read);
                s.append(" bytes but expected ");
                push_decimal(&mut s, *expected);
                s.append(" bytes.");
                s
            },
            TBGError::FailDeserialize => String::from_str("Failure to deserialize message."),
            TBGError::EmptyMessage => String::from_str("Message is empty."),
            TBGError::DuplicateEntry => String::from_str(
                "Name is already taken or otherwise invalid.",
            ),
            TBGError::Other(msg) => msg.clone(),
        }
    }
}

/// The number that a string of decimal digits denotes, most significant
/// digit first.
pub open spec fn digits_value(s: Seq<char>) -> int
    decreases s.len(),
{
    if s.len() == 0 {
        0
    } else {
        digits_value(s.drop_last()) * 10 + (s.last() as int - '0' as int)
    }
}

/// `decimal(n)` is how `n` is written in base ten: one or more digits
/// `0`..`9` that denote `n`, with no leading zero except for `0` itself.
pub proof fn lemma_decimal_exactly(n: nat)
    ensures
        decimal(n).len() >= 1,
        forall|k: int| 0 <= k < decimal(n).len() ==> '0' <= #[trigger] decimal(n)[k] <= '9',
        digits_value(decimal(n)) == n,
        decimal(n)[0] == '0' ==> n == 0,
        n == 0 ==> decimal(n) == seq!['0'],
    decreases n,
{
    if n >= 10 {
        lemma_decimal_exactly(n / 10);
        let d = decimal(n);
        assert(d.drop_last() =~= decimal(n / 10));
        assert forall|k: int| 0 <= k < d.len() implies '0' <= #[trigger] d[k] <= '9' by {
            if k < d.len() - 1 {
                assert(d[k] == decimal(n / 10)[k]);
            }
        }
        assert(d[0] == decimal(n / 10)[0]);
        assert(d.last() as int == '0' as int + n % 10);
        assert(digits_value(d) == digits_value(decimal(n / 10)) * 10 + n % 10);
        assert(n == (n / 10) * 10 + n % 10) by (nonlinear_arith);
    } else {
        assert(decimal(n).last() as int == '0' as int + n);
        assert(digits_value(decimal(n).drop_last()) == 0);
        assert(decimal(n).drop_last() =~= Seq::<char>::empty());
    }
}

} // verus!
