use voice_recorder::buffer::Buffer;
use voice_recorder::config::{
    buffer_size, check_size, parse_size, BotConfig, ConfigError, DEFAULT_BUFFER_SIZE,
    MAX_BUFFER_SIZE,
};

#[test]
fn unconfigured_service_has_default_settings() {
    let config = BotConfig::default();
    assert!(!config.set_up_commands);
    assert_eq!(config.bot_token, "test_token");
    assert_eq!(config.app_id, 0);
}

#[test]
fn sizes_from_one_slot_to_the_limit_are_valid() {
    assert_eq!(MAX_BUFFER_SIZE, usize::MAX / 32);
    assert_eq!(check_size(0), Err(ConfigError::ZeroCapacity));
    assert_eq!(check_size(1), Ok(()));
    assert_eq!(check_size(DEFAULT_BUFFER_SIZE), Ok(()));
    assert_eq!(check_size(MAX_BUFFER_SIZE), Ok(()));
    assert_eq!(check_size(MAX_BUFFER_SIZE + 1), Err(ConfigError::SizeTooLarge));
    assert_eq!(check_size(usize::MAX), Err(ConfigError::SizeTooLarge));
}

#[test]
fn default_size_is_fifteen_seconds_of_stereo() {
    assert_eq!(DEFAULT_BUFFER_SIZE, 15 * 2 * 48_000);
    assert_eq!(buffer_size(None), Ok(1_440_000));
}

#[test]
fn configured_size_is_halved() {
    assert_eq!(buffer_size(Some("1000")), Ok(500));
    assert_eq!(buffer_size(Some("1001")), Ok(500));
    assert_eq!(buffer_size(Some("2")), Ok(1));
    assert_eq!(buffer_size(Some("1")), Ok(0));
    assert_eq!(buffer_size(Some("0")), Ok(0));
}

#[test]
fn size_of_less_than_one_slot_gives_no_buffer() {
    let size = buffer_size(Some("1")).ok().unwrap();
    assert_eq!(Buffer::new(size).err(), Some(ConfigError::ZeroCapacity));
}

#[test]
fn numbers_may_start_with_plus_or_zeros() {
    assert_eq!(parse_size(b"+12"), Ok(12));
    assert_eq!(parse_size(b"0012"), Ok(12));
    assert_eq!(parse_size(b"+0"), Ok(0));
    assert_eq!(parse_size(b"9"), Ok(9));
}

#[test]
fn text_that_is_no_number_is_malformed() {
    assert_eq!(parse_size(b""), Err(ConfigError::MalformedSize));
    assert_eq!(parse_size(b"+"), Err(ConfigError::MalformedSize));
    assert_eq!(parse_size(b"-1"), Err(ConfigError::MalformedSize));
    assert_eq!(parse_size(b"++1"), Err(ConfigError::MalformedSize));
    assert_eq!(parse_size(b"1+"), Err(ConfigError::MalformedSize));
    assert_eq!(parse_size(b"12a"), Err(ConfigError::MalformedSize));
    assert_eq!(parse_size(b" 12"), Err(ConfigError::MalformedSize));
    assert_eq!(parse_size(b"1 2"), Err(ConfigError::MalformedSize));
    assert_eq!(parse_size(b"/"), Err(ConfigError::MalformedSize));
    assert_eq!(parse_size(b":"), Err(ConfigError::MalformedSize));
    assert_eq!(buffer_size(Some("lots")), Err(ConfigError::MalformedSize));
    assert_eq!(buffer_size(Some("١٢")), Err(ConfigError::MalformedSize));
}

#[test]
fn largest_number_of_the_machine_still_fits() {
    let largest = usize::MAX.to_string();
    assert_eq!(parse_size(largest.as_bytes()), Ok(usize::MAX));
    assert_eq!(buffer_size(Some(&largest)), Ok(usize::MAX / 2));
}

#[test]
fn number_beyond_the_machine_is_too_large() {
    let mut beyond = usize::MAX.to_string();
    let last = beyond.pop();
    assert_eq!(last, Some('5'));
    beyond.push('6');
    assert_eq!(parse_size(beyond.as_bytes()), Err(ConfigError::SizeTooLarge));
    let longer = format!("{}0", usize::MAX);
    assert_eq!(buffer_size(Some(&longer)), Err(ConfigError::SizeTooLarge));
    assert_eq!(
        parse_size(b"99999999999999999999999999999999999999999999"),
        Err(ConfigError::SizeTooLarge)
    );
}

#[test]
fn malformed_wins_over_too_large() {
    assert_eq!(
        parse_size(b"99999999999999999999999999999999999999999999x"),
        Err(ConfigError::MalformedSize)
    );
}

#[test]
fn parsing_agrees_with_the_native_one_on_numbers() {
    let mut value: usize = 0;
    while value < 5_000 {
        let text = value.to_string();
        assert_eq!(parse_size(text.as_bytes()).ok(), text.parse::<usize>().ok());
        value += 7;
    }
}
