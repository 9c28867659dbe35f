//! The ways in which reading a secret can fail, and what each is called in a
//! message.

use vstd::prelude::*;
use vstd::string::*;

verus! {

/// Why no secret document came back. Every failure ends the one read that
/// met it; nothing is retried and no partial document is handed out.
#[derive(Debug, Clone, Copy, PartialEq, Eq, Structural)]
pub enum VaultError {
    /// The configured address is no absolute URL.
    InvalidAddress,
    /// The address is a URL to which no path segment can be appended.
    NonHierarchicalAddress,
    /// The request did not reach the server or no answer came back.
    TransportError,
    /// The server answered with a status outside 200 to 299.
    RemoteError { status: u16 },
    /// The answer's body is no JSON text.
    MalformedResponse,
    /// The body lacks the object under which the engine keeps the secret.
    MissingPayload,
    /// A value of the secret is something other than a string.
    UnsupportedValueType,
}

/// The character that stands for a digit below ten.
pub open spec fn digit_char(digit: nat) -> char {
    if digit == 0 {
        '0'
    } else if digit == 1 {
        '1'
    } else if digit == 2 {
        '2'
    } else if digit == 3 {
        '3'
    } else if digit == 4 {
        '4'
    } else if digit == 5 {
        '5'
    } else if digit == 6 {
        '6'
    } else if digit == 7 {
        '7'
    } else if digit == 8 {
        '8'
    } else {
        '9'
    }
}

/// A number in decimal digits, without leading zeros.
pub open spec fn decimal_text(number: nat) -> Seq<char>
    decreases number,
{
    if number < 10 {
        seq![digit_char(number)]
    } else {
        decimal_text(number / 10).push(digit_char(number % 10))
    }
}

/// The words of a message that precede a remote error's status code.
pub open spec fn remote_error_prefix() -> Seq<char> {
    "Failed to fetch secret from Vault (wrong kv version?): "@
}

/// What `message` says of each error.
pub open spec fn message_text(error: VaultError) -> Seq<char> {
    match error {
        VaultError::InvalidAddress => "Invalid Vault address URL"@,
        VaultError::NonHierarchicalAddress => "Vault address URL cannot be a base"@,
        VaultError::TransportError => "Failed to reach Vault"@,
        VaultError::RemoteError { status } => remote_error_prefix() + decimal_text(status as nat),
        VaultError::MalformedResponse => "Vault response is not valid JSON"@,
        VaultError::MissingPayload => "Vault response holds no secret data (wrong kv version?)"@,
        VaultError::UnsupportedValueType => "Vault secret holds a value that is not a string"@,
    }
}

fn digit_of(digit: u16) -> (c: char)
    requires
        digit < 10,
    ensures
        c == digit_char(digit as nat),
{
    if digit == 0 {
        '0'
    } else if digit == 1 {
        '1'
    } else if digit == 2 {
        '2'
    } else if digit == 3 {
        '3'
    } else if digit == 4 {
        '4'
    } else if digit == 5 {
        '5'
    } else if digit == 6 {
        '6'
    } else if digit == 7 {
        '7'
    } else if digit == 8 {
        '8'
    } else {
        '9'
    }
}

/// Writes `number` in decimal digits at the end of `text`.
pub fn push_decimal(text: &mut String, number: u16)
    ensures
        final(text)@ == old(text)@ + decimal_text(number as nat),
    decreases number,
{
    if number < 10 {
        text.push(digit_of(number));
        assert(text@ =~= old(text)@ + decimal_text(number as nat));
    } else {
        push_decimal(text, number / 10);
        text.push(digit_of(number % 10));
        assert(text@ =~= old(text)@ + decimal_text(number as nat));
    }
}

impl VaultError {
    /// Describes the error in a sentence. For a remote error the sentence
    /// ends with the status code in decimal digits.
    pub fn message(&self) -> (text: String)
        ensures
            text@ == message_text(*self),
    {
        match self {
            VaultError::InvalidAddress => String::from_str("Invalid Vault address URL"),
            VaultError::NonHierarchicalAddress => String::from_str(
                "Vault address URL cannot be a base",
            ),
            VaultError::TransportError => String::from_str("Failed to reach Vault"),
            VaultError::RemoteError { status } => {
                let mut text = String::from_str(
                    "Failed to fetch secret from Vault (wrong kv version?): ",
                );
                push_decimal(&mut text, *status);
                text
            },
            VaultError::MalformedResponse => String::from_str("Vault response is not valid JSON"),
            VaultError::MissingPayload => String::from_str(
                "Vault response holds no secret data (wrong kv version?)",
            ),
            VaultError::UnsupportedValueType => String::from_str(
                "Vault secret holds a value that is not a string",
            ),
        }
    }
}

/// The message of a remote error ends with its status code, and the code
/// 403 is written `403`.
pub proof fn lemma_remote_message_carries_status(status: u16)
    ensures
        message_text(VaultError::RemoteError { status }) == remote_error_prefix() + decimal_text(
            status as nat,
        ),
        decimal_text(403) == seq!['4', '0', '3'],
{
    reveal_with_fuel(decimal_text, 3);
    assert(decimal_text(403) =~= seq!['4', '0', '3']);
}

} // verus!
