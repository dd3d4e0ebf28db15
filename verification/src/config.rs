//! Settings that the library is started with.

use vstd::prelude::*;
use vstd::string::*;

verus! {

/// Slots of a buffer when no size is configured: 15 seconds of two channels at
/// 48 kHz.
pub const DEFAULT_BUFFER_SIZE: usize = 1_440_000;

/// Most slots that a buffer can have: what the machine can hold in one piece
/// of memory.
pub const MAX_BUFFER_SIZE: usize = usize::MAX / 32;

/// Why a configuration was turned down.
#[derive(Clone, Copy, Debug, PartialEq, Eq, Structural)]
pub enum ConfigError {
    /// A buffer must hold at least one slot.
    ZeroCapacity,
    /// The configured size is not a decimal number.
    MalformedSize,
    /// The configured size does not fit the machine.
    SizeTooLarge,
}

/// Whether a buffer can have `size` slots.
pub open spec fn valid_size(size: usize) -> bool {
    0 < size <= MAX_BUFFER_SIZE
}

/// What is wrong with `size` as the number of slots of a buffer.
pub open spec fn size_error(size: usize) -> Option<ConfigError> {
    if size == 0 {
        Some(ConfigError::ZeroCapacity)
    } else if size > MAX_BUFFER_SIZE {
        Some(ConfigError::SizeTooLarge)
    } else {
        None
    }
}

/// Tells whether a buffer can have `size` slots, and why not if it cannot.
pub fn check_size(size: usize) -> (checked: Result<(), ConfigError>)
    ensures
        match checked {
            Ok(_) => valid_size(size),
            Err(error) => size_error(size) == Some(error),
        },
{
    if size == 0 {
        Err(ConfigError::ZeroCapacity)
    } else if size > MAX_BUFFER_SIZE {
        Err(ConfigError::SizeTooLarge)
    } else {
        Ok(())
    }
}

/// What the service needs to know to sign in.
pub struct BotConfig {
    /// Whether the commands are to be registered anew at start.
    pub set_up_commands: bool,
    /// The secret that the service signs in with.
    pub bot_token: String,
    /// The application that the commands belong to.
    pub app_id: u64,
}

impl Default for BotConfig {
    /// The settings of a service that was never configured: no commands to
    /// register, a secret that signs in nowhere, no application.
    fn default() -> (made: BotConfig)
        ensures
            !made.set_up_commands,
            made.bot_token@ == "test_token"@,
            made.app_id == 0,
    {
        BotConfig { set_up_commands: false, bot_token: String::from_str("test_token"), app_id: 0 }
    }
}

/// Whether `byte` is an ASCII digit.
pub open spec fn is_digit(byte: u8) -> bool {
    48 <= byte <= 57
}

/// The number that the decimal `digits` spell, most significant first.
pub open spec fn decimal(digits: Seq<u8>) -> nat
    decreases digits.len(),
{
    if digits.len() == 0 {
        0
    } else {
        decimal(digits.drop_last()) * 10 + (digits.last() - 48) as nat
    }
}

/// The digits of `text`: all of it but a plus sign in front.
pub open spec fn digits_of(text: Seq<u8>) -> Seq<u8> {
    if text.len() > 0 && text[0] == 43 {
        text.skip(1)
    } else {
        text
    }
}

/// Whether `text` spells a number: at least one digit and nothing but
/// digits, after at most one plus sign.
pub open spec fn spells_number(text: Seq<u8>) -> bool {
    let digits = digits_of(text);
    digits.len() > 0 && forall|at: int| 0 <= at < digits.len() ==> is_digit(#[trigger] digits[at])
}

proof fn lemma_decimal_grows(digits: Seq<u8>, count: int)
    requires
        0 <= count <= digits.len(),
        forall|at: int| 0 <= at < digits.len() ==> is_digit(#[trigger] digits[at]),
    ensures
        decimal(digits.take(count)) <= decimal(digits),
    decreases digits.len() - count,
{
    if count == digits.len() {
        assert(digits.take(count) =~= digits);
    } else {
        lemma_decimal_grows(digits, count + 1);
        assert(digits.take(count + 1).drop_last() =~= digits.take(count));
    }
}

/// The number that `bytes` spell, if they spell one that fits the machine.
pub open spec fn parsed_size(bytes: Seq<u8>) -> Result<usize, ConfigError> {
    if !spells_number(bytes) {
        Err(ConfigError::MalformedSize)
    } else if decimal(digits_of(bytes)) > usize::MAX {
        Err(ConfigError::SizeTooLarge)
    } else {
        Ok(decimal(digits_of(bytes)) as usize)
    }
}

/// Reads the decimal number that `bytes` spell.
pub fn parse_size(bytes: &[u8]) -> (size: Result<usize, ConfigError>)
    ensures
        size == parsed_size(bytes@),
{
    let first: usize = if bytes.len() > 0 && bytes[0] == 43 {
        1
    } else {
        0
    };
    let ghost digits = digits_of(bytes@);
    if first == bytes.len() {
        return Err(ConfigError::MalformedSize);
    }
    let mut at: usize = first;
    while at < bytes.len()
        invariant
            first <= at <= bytes.len(),
            first < bytes.len(),
            digits == digits_of(bytes@),
            digits == bytes@.skip(first as int),
            forall|seen: int| 0 <= seen < at - first ==> is_digit(#[trigger] digits[seen]),
        decreases bytes.len() - at,
    {
        if bytes[at] < 48 || bytes[at] > 57 {
            assert(!is_digit(digits[at - first]));
            return Err(ConfigError::MalformedSize);
        }
        at += 1;
    }
    let mut number: usize = 0;
    let mut at: usize = first;
    while at < bytes.len()
        invariant
            first <= at <= bytes.len(),
            first < bytes.len(),
            digits == digits_of(bytes@),
            digits == bytes@.skip(first as int),
            forall|seen: int| 0 <= seen < digits.len() ==> is_digit(#[trigger] digits[seen]),
            number == decimal(digits.take(at - first)),
        decreases bytes.len() - at,
    {
        proof {
            assert(digits.take(at - first + 1).drop_last() =~= digits.take(at - first));
            lemma_decimal_grows(digits, at - first + 1);
        }
        let digit: usize = (bytes[at] - 48) as usize;
        let raised: usize = match number.checked_mul(10) {
            Some(raised) => raised,
            None => {
                return Err(ConfigError::SizeTooLarge);
            },
        };
        number = match raised.checked_add(digit) {
            Some(sum) => sum,
            None => {
                return Err(ConfigError::SizeTooLarge);
            },
        };
        at += 1;
    }
    assert(digits.take(digits.len() as int) =~= digits);
    Ok(number)
}

/// Slots of a buffer under the configured size `custom_size`: the size is
/// counted in bytes, two to a slot, the odd byte dropped. Without a
/// configured size a buffer has [`DEFAULT_BUFFER_SIZE`] slots.
pub fn buffer_size(custom_size: Option<&str>) -> (size: Result<usize, ConfigError>)
    ensures
        size == match custom_size {
            None => Ok::<usize, ConfigError>(DEFAULT_BUFFER_SIZE),
            Some(text) => match parsed_size(text.spec_bytes()) {
                Ok(bytes) => Ok((bytes / 2) as usize),
                Err(error) => Err(error),
            },
        },
{
    match custom_size {
        None => Ok(DEFAULT_BUFFER_SIZE),
        Some(text) => match parse_size(text.as_bytes()) {
            Ok(bytes) => Ok(bytes / 2),
            Err(error) => Err(error),
        },
    }
}

} // verus!
