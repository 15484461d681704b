//! Error taxonomy of the calculator: computation overflow and the six
//! categories of invalid user input.

use vstd::prelude::*;

use crate::decimal::dec_digits;
use crate::decimal::u128_to_string;

verus! {

/// Failure of the arithmetic engine: the true Fibonacci value of the given
/// index does not fit in `u128`.
#[derive(Debug, PartialEq, Eq, Structural, Clone, Copy)]
pub enum ComputationError {
    /// Overflow while computing the value for the carried index.
    Overflow(u128),
}

/// Rejection of a raw input line, one variant per validation rule, plus the
/// overflow of a computation started from an accepted index.
#[derive(Debug, PartialEq, Eq, Structural, Clone, Copy)]
pub enum InputError {
    /// Nothing but whitespace was entered.
    EmptyInput,
    /// The input starts with a minus sign.
    NegativeNumber,
    /// The input contains a decimal point.
    FloatNumber,
    /// The input contains a character that is not an ASCII digit.
    InvalidCharacters,
    /// The input contains an internal space: more than one value.
    MultipleValues,
    /// The digits denote a value above `u128::MAX`.
    NumberTooLarge,
    /// The Fibonacci value of the carried index does not fit in `u128`.
    ComputationOverflow(u128),
}

/// The Russian sentence naming an input error.
pub open spec fn input_error_ru(e: InputError) -> Seq<char> {
    match e {
        InputError::EmptyInput => "Пустой ввод"@,
        InputError::NegativeNumber => "Отрицательные числа не поддерживаются"@,
        InputError::FloatNumber => "Дробные числа не поддерживаются"@,
        InputError::InvalidCharacters => "Ввод содержит нечисловые символы"@,
        InputError::MultipleValues => "Введите только одно число"@,
        InputError::NumberTooLarge => "Число слишком большое"@,
        InputError::ComputationOverflow(x) => "Переполнение при вычислении fibonacci("@
            + dec_digits(x as nat) + ")"@,
    }
}

/// The English sentence naming an input error.
pub open spec fn input_error_en(e: InputError) -> Seq<char> {
    match e {
        InputError::EmptyInput => "Empty input"@,
        InputError::NegativeNumber => "Negative numbers are not supported"@,
        InputError::FloatNumber => "Floating point numbers are not supported"@,
        InputError::InvalidCharacters => "Input contains non-numeric characters"@,
        InputError::MultipleValues => "Enter only one number"@,
        InputError::NumberTooLarge => "Number is too large"@,
        InputError::ComputationOverflow(x) => "Overflow when computing fibonacci("@
            + dec_digits(x as nat) + ")"@,
    }
}

/// The bilingual rendering of an input error: the Russian sentence, then the
/// English one, each behind its language tag, separated by a newline.
pub open spec fn input_error_message(e: InputError) -> Seq<char> {
    "RU: Ошибка! "@ + input_error_ru(e) + "\nEN: Error! "@ + input_error_en(e)
}

/// The rendering of a computation error: the Russian sentence naming the
/// offending index.
pub open spec fn computation_error_message(e: ComputationError) -> Seq<char> {
    match e {
        ComputationError::Overflow(x) => "Переполнение при вычислении для входа "@
            + dec_digits(x as nat),
    }
}

impl InputError {
    /// Renders the error bilingually, Russian first, then English.
    pub fn message(&self) -> (r: String)
        ensures
            r@ == input_error_message(*self),
    {
        let mut s = String::from_str("RU: Ошибка! ");
        match self {
            InputError::EmptyInput => {
                s.append("Пустой ввод");
                s.append("\nEN: Error! ");
                s.append("Empty input");
            },
            InputError::NegativeNumber => {
                s.append("Отрицательные числа не поддерживаются");
                s.append("\nEN: Error! ");
                s.append("Negative numbers are not supported");
            },
            InputError::FloatNumber => {
                s.append("Дробные числа не поддерживаются");
                s.append("\nEN: Error! ");
                s.append("Floating point numbers are not supported");
            },
            InputError::InvalidCharacters => {
                s.append("Ввод содержит нечисловые символы");
                s.append("\nEN: Error! ");
                s.append("Input contains non-numeric characters");
            },
            InputError::MultipleValues => {
                s.append("Введите только одно число");
                s.append("\nEN: Error! ");
                s.append("Enter only one number");
            },
            InputError::NumberTooLarge => {
                s.append("Число слишком большое");
                s.append("\nEN: Error! ");
                s.append("Number is too large");
            },
            InputError::ComputationOverflow(x) => {
                let num = u128_to_string(*x);
                s.append("Переполнение при вычислении fibonacci(");
                s.append(num.as_str());
                s.append(")");
                s.append("\nEN: Error! ");
                s.append("Overflow when computing fibonacci(");
                s.append(num.as_str());
                s.append(")");
            },
        }
        proof {
            assert(s@ =~= input_error_message(*self));
        }
        s
    }
}

impl ComputationError {
    /// Renders the error as its Russian sentence naming the offending index.
    pub fn message(&self) -> (r: String)
        ensures
            r@ == computation_error_message(*self),
    {
        let mut s = String::from_str("Переполнение при вычислении для входа ");
        match self {
            ComputationError::Overflow(x) => {
                let num = u128_to_string(*x);
                s.append(num.as_str());
            },
        }
        proof {
            assert(s@ =~= computation_error_message(*self));
        }
        s
    }
}

} // verus!
