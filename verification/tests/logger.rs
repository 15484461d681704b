use fibonacci_stable::Logger;

#[test]
fn given_new_logger_when_created_then_has_no_entries() {
    // Given / When
    let logger = Logger::new();

    // Then
    assert!(logger.entries().is_empty());
}

#[test]
fn given_logger_when_log_message_then_entry_contains_message() {
    // Given
    let mut logger = Logger::new();

    // When
    logger.log("тестовое сообщение");

    // Then
    assert_eq!(logger.entries().len(), 1);
    assert!(logger.entries()[0].contains("тестовое сообщение"));
}

#[test]
fn given_logger_when_log_message_then_entry_contains_timestamp() {
    // Given
    let mut logger = Logger::new();

    // When
    logger.log("test");

    // Then
    let entry = &logger.entries()[0];
    assert!(
        entry.starts_with("[20"),
        "Запись должна начинаться с таймстемпа: {}",
        entry
    );
}

#[test]
fn given_logger_when_log_multiple_then_entries_in_order() {
    // Given
    let mut logger = Logger::new();

    // When
    logger.log("первое");
    logger.log("второе");
    logger.log("третье");

    // Then
    assert_eq!(logger.entries().len(), 3);
    assert!(logger.entries()[0].contains("первое"));
    assert!(logger.entries()[1].contains("второе"));
    assert!(logger.entries()[2].contains("третье"));
}

#[test]
fn given_logger_when_log_then_entry_matches_format() {
    // Given
    let mut logger = Logger::new();
    let re = regex::Regex::new(r"^\[\d{4}-\d{2}-\d{2} \d{2}:\d{2}:\d{2}\.\d{3}\] .+$").unwrap();

    // When
    logger.log("hello");

    // Then
    let entry = &logger.entries()[0];
    assert!(
        re.is_match(entry),
        "Запись не соответствует формату: {}",
        entry
    );
}
