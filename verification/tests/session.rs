use fibonacci_stable::decimal::u128_to_string;
use fibonacci_stable::parse_input;
use fibonacci_stable::process_line;
use fibonacci_stable::render_result;
use fibonacci_stable::LineOutcome;
use fibonacci_stable::Logger;

#[test]
fn given_valid_line_when_process_line_then_computes_and_logs() {
    // Given
    let mut logger = Logger::new();

    // When
    let outcome = process_line(&mut logger, "10\n");

    // Then
    match outcome {
        LineOutcome::Computed { index, value } => {
            assert_eq!(index, 10);
            assert_eq!(value, 55);
            assert_eq!(render_result(index, value), "fibonacci(10) = 55");
        }
        _ => panic!("ожидался вычисленный результат"),
    }
    assert_eq!(logger.entries().len(), 3);
    assert!(logger.entries()[0].contains("Ввод от пользователя: '10'"));
    assert!(logger.entries()[1].contains("Старт вычисления fibonacci(10)"));
    assert!(logger.entries()[2].contains("Конец вычисления: fibonacci(10) = 55"));
}

#[test]
fn given_invalid_line_when_process_line_then_reports_bilingually() {
    // Given
    let mut logger = Logger::new();

    // When
    let outcome = process_line(&mut logger, "abc\n");

    // Then
    match outcome {
        LineOutcome::InvalidInput { message } => {
            assert!(message.contains("RU: Ошибка! Ввод содержит нечисловые символы"));
            assert!(message.contains("EN: Error! Input contains non-numeric characters"));
            assert!(message.contains("Попробуйте снова или введите 'q' для выхода:"));
        }
        _ => panic!("ожидалась ошибка валидации"),
    }
    assert_eq!(logger.entries().len(), 2);
    assert!(logger.entries()[0].contains("Ввод от пользователя: 'abc'"));
    assert!(logger.entries()[1].contains("Некорректный ввод: 'abc'"));
}

#[test]
fn given_overflowing_index_when_process_line_then_reports_overflow() {
    // Given
    let mut logger = Logger::new();

    // When
    let outcome = process_line(&mut logger, "200\n");

    // Then
    match outcome {
        LineOutcome::Overflow { message } => {
            assert!(message.contains("RU: Ошибка! Переполнение при вычислении fibonacci(200)"));
            assert!(message.contains("EN: Error! Overflow when computing fibonacci(200)"));
            assert!(message.contains("Попробуйте снова или введите 'q' для выхода:"));
        }
        _ => panic!("ожидалось переполнение"),
    }
    assert_eq!(logger.entries().len(), 3);
    assert!(logger.entries()[0].contains("Ввод от пользователя: '200'"));
    assert!(logger.entries()[1].contains("Старт вычисления fibonacci(200)"));
    assert!(logger.entries()[2].contains("Переполнение при вычислении fibonacci(200)"));
}

#[test]
fn given_quit_sentinel_when_process_line_then_quits_after_logging_input() {
    // Given
    let mut logger = Logger::new();

    // When / Then: each received line is logged exactly once, then the
    // sentinel quits without any computation
    assert!(matches!(process_line(&mut logger, "q\n"), LineOutcome::Quit));
    assert!(matches!(process_line(&mut logger, "Q\n"), LineOutcome::Quit));
    assert!(matches!(process_line(&mut logger, "  q  \n"), LineOutcome::Quit));
    assert_eq!(logger.entries().len(), 3);
    assert!(logger.entries()[0].contains("Ввод от пользователя: 'q'"));
    assert!(logger.entries()[1].contains("Ввод от пользователя: 'Q'"));
    assert!(logger.entries()[2].contains("Ввод от пользователя: 'q'"));
}

#[test]
fn given_boundary_indices_when_process_line_then_one_fits_one_overflows() {
    // Given: fib(186) fits in u128, fib(187) does not
    let mut logger = Logger::new();

    // When / Then
    assert!(matches!(
        process_line(&mut logger, "186"),
        LineOutcome::Computed { index: 186, value: _ }
    ));
    assert!(matches!(
        process_line(&mut logger, "187"),
        LineOutcome::Overflow { message: _ }
    ));
}

#[test]
fn given_value_when_rendered_in_decimal_then_parses_back() {
    // Round trip: rendering and validating gives the value back
    for n in [0u128, 1, 9, 10, 55, 186, 12345678901234567890, u128::MAX] {
        let text = u128_to_string(n);
        assert_eq!(parse_input(&text), Ok(n));
    }
}

#[test]
fn given_values_when_rendered_in_decimal_then_exact_text() {
    assert_eq!(u128_to_string(0), "0");
    assert_eq!(u128_to_string(7), "7");
    assert_eq!(u128_to_string(100), "100");
    assert_eq!(
        u128_to_string(u128::MAX),
        "340282366920938463463374607431768211455"
    );
}

#[test]
fn given_result_when_rendered_then_matches_output_format() {
    assert_eq!(render_result(0, 0), "fibonacci(0) = 0");
    assert_eq!(render_result(10, 55), "fibonacci(10) = 55");
}
