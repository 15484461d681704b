use fibonacci_stable::parse_input;
use fibonacci_stable::InputError;

#[test]
fn given_valid_number_when_parse_input_then_returns_ok() {
    // Given
    let input = "10";

    // When
    let result = parse_input(input);

    // Then
    assert_eq!(result, Ok(10));
}

#[test]
fn given_letters_when_parse_input_then_returns_invalid_characters() {
    // Given
    let input = "abc";

    // When
    let result = parse_input(input);

    // Then
    assert_eq!(result, Err(InputError::InvalidCharacters));
}

#[test]
fn given_negative_number_when_parse_input_then_returns_negative_number() {
    // Given
    let input = "-5";

    // When
    let result = parse_input(input);

    // Then
    assert_eq!(result, Err(InputError::NegativeNumber));
}

#[test]
fn given_float_when_parse_input_then_returns_float_number() {
    // Given
    let input = "3.14";

    // When
    let result = parse_input(input);

    // Then
    assert_eq!(result, Err(InputError::FloatNumber));
}

#[test]
fn given_empty_string_when_parse_input_then_returns_empty_input() {
    // Given
    let input = "";

    // When
    let result = parse_input(input);

    // Then
    assert_eq!(result, Err(InputError::EmptyInput));
}

#[test]
fn given_multiple_numbers_when_parse_input_then_returns_multiple_values() {
    // Given
    let input = "10 20";

    // When
    let result = parse_input(input);

    // Then
    assert_eq!(result, Err(InputError::MultipleValues));
}

#[test]
fn given_huge_number_when_parse_input_then_returns_number_too_large() {
    // Given
    let input = "999999999999999999999999999999999999999999";

    // When
    let result = parse_input(input);

    // Then
    assert_eq!(result, Err(InputError::NumberTooLarge));
}

#[test]
fn given_mixed_letters_and_digits_when_parse_input_then_returns_invalid_characters() {
    // Given
    let input = "12abc";

    // When
    let result = parse_input(input);

    // Then
    assert_eq!(result, Err(InputError::InvalidCharacters));
}

#[test]
fn given_special_chars_when_parse_input_then_returns_invalid_characters() {
    // Given
    let input = "@#$%";

    // When
    let result = parse_input(input);

    // Then
    assert_eq!(result, Err(InputError::InvalidCharacters));
}

#[test]
fn given_whitespace_around_number_when_parse_input_then_returns_ok() {
    // Given
    let input = "  42  ";

    // When
    let result = parse_input(input);

    // Then
    assert_eq!(result, Ok(42));
}

#[test]
fn given_zero_when_parse_input_then_returns_ok() {
    // Given
    let input = "0";

    // When
    let result = parse_input(input);

    // Then
    assert_eq!(result, Ok(0));
}
