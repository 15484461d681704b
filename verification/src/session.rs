//! The decisions of the interactive loop: one raw line in, one outcome out.
//! The caller reads lines, prints what an outcome tells it to print, and
//! stops or asks again as the outcome says; every event is logged here.

use vstd::prelude::*;

use crate::decimal::dec_digits;
use crate::decimal::u128_to_string;
use crate::errors::input_error_message;
use crate::errors::InputError;
use crate::fibonacci::fib;
use crate::fibonacci::fibonacci;
use crate::input::parse_input;
use crate::input::parse_spec;
use crate::input::trim;
use crate::input::trim_spec;
use crate::logger::entry_for;
use crate::logger::Logger;

verus! {

/// What the loop does with one line of input.
pub enum LineOutcome {
    /// The line was the quit sentinel: say farewell and stop.
    Quit,
    /// The index parsed and its Fibonacci value fits: print the result line
    /// and stop.
    Computed { index: u128, value: u128 },
    /// The line failed validation: print the message and read the next line.
    InvalidInput { message: String },
    /// The index parsed but its Fibonacci value overflows: print the
    /// message, prompt anew and read the next line.
    Overflow { message: String },
}

/// Whether the trimmed line is the quit sentinel: a lone `q`, in either
/// case.
pub open spec fn is_quit_line(t: Seq<char>) -> bool {
    t == seq!['q'] || t == seq!['Q']
}

/// The log entry text for a received input line.
pub open spec fn received_note(t: Seq<char>) -> Seq<char> {
    "Ввод от пользователя: '"@ + t + "'"@
}

/// The log entry text for a rejected input line.
pub open spec fn rejected_note(t: Seq<char>, e: InputError) -> Seq<char> {
    "Некорректный ввод: '"@ + t + "'. Ошибка: "@ + input_error_message(e)
}

/// The log entry text for the start of a computation.
pub open spec fn started_note(n: u128) -> Seq<char> {
    "Старт вычисления fibonacci("@ + dec_digits(n as nat) + ")"@
}

/// The log entry text for a finished computation.
pub open spec fn finished_note(n: u128, v: u128) -> Seq<char> {
    "Конец вычисления: fibonacci("@ + dec_digits(n as nat) + ") = "@ + dec_digits(v as nat)
}

/// The text printed for a rejected line or an overflow: the bilingual error
/// message, then an invitation to try again or quit.
pub open spec fn retry_message(e: InputError) -> Seq<char> {
    input_error_message(e) + "\nПопробуйте снова или введите 'q' для выхода:"@
}

/// The printed result line for a finished computation.
pub open spec fn result_line(n: u128, v: u128) -> Seq<char> {
    "fibonacci("@ + dec_digits(n as nat) + ") = "@ + dec_digits(v as nat)
}

/// Whether `post` is `pre` with entries for exactly the given messages
/// appended, each behind a timestamp, in the given order.
pub open spec fn appended(
    pre: Seq<Seq<char>>,
    post: Seq<Seq<char>>,
    notes: Seq<Seq<char>>,
) -> bool {
    &&& post.len() == pre.len() + notes.len()
    &&& (forall|i: int| 0 <= i < pre.len() ==> post[i] == pre[i])
    &&& (forall|j: int| 0 <= j < notes.len() ==> entry_for(post[pre.len() + j], #[trigger] notes[j]))
}

/// Growing a log twice appends the two runs of entries one after the other.
proof fn lemma_appended_join(
    pre: Seq<Seq<char>>,
    mid: Seq<Seq<char>>,
    post: Seq<Seq<char>>,
    first: Seq<Seq<char>>,
    second: Seq<Seq<char>>,
)
    requires
        appended(pre, mid, first),
        appended(mid, post, second),
    ensures
        appended(pre, post, first + second),
{
    assert forall|j: int| 0 <= j < (first + second).len() implies entry_for(
        post[pre.len() + j],
        #[trigger] (first + second)[j],
    ) by {
        if j < first.len() {
            assert(post[pre.len() + j] == mid[pre.len() + j]);
            assert((first + second)[j] == first[j]);
        } else {
            assert((first + second)[j] == second[j - first.len()]);
        }
    }
}

/// One `log` call appends exactly one entry, for the logged message.
proof fn lemma_appended_one(pre: Seq<Seq<char>>, post: Seq<Seq<char>>, note: Seq<char>)
    requires
        post.len() == pre.len() + 1,
        forall|i: int| 0 <= i < pre.len() ==> post[i] == pre[i],
        entry_for(post.last(), note),
    ensures
        appended(pre, post, seq![note]),
{
    let notes = seq![note];
    assert(notes.len() == 1);
    assert(notes[0] == note);
    assert(post[pre.len() as int] == post.last());
    assert forall|j: int| 0 <= j < notes.len() implies entry_for(
        post[pre.len() + j],
        #[trigger] notes[j],
    ) by {
        assert(j == 0);
    }
}

/// Renders the result line `fibonacci(<n>) = <v>`.
pub fn render_result(n: u128, v: u128) -> (r: String)
    ensures
        r@ == result_line(n, v),
{
    let mut s = String::from_str("fibonacci(");
    let index = u128_to_string(n);
    s.append(index.as_str());
    s.append(") = ");
    let value = u128_to_string(v);
    s.append(value.as_str());
    proof {
        assert(s@ =~= result_line(n, v));
    }
    s
}

/// Whether the trimmed line is the quit sentinel.
fn is_quit(trimmed: &str) -> (r: bool)
    ensures
        r == is_quit_line(trimmed@),
{
    proof {
        reveal_strlit("q");
        reveal_strlit("Q");
        assert(seq!['q'] =~= "q"@);
        assert(seq!['Q'] =~= "Q"@);
    }
    if trimmed.unicode_len() != 1 {
        return false;
    }
    let c = trimmed.get_char(0);
    proof {
        assert(trimmed@ =~= seq![trimmed@[0]]);
    }
    c == 'q' || c == 'Q'
}

/// Builds the log entry text for a received input line.
fn build_received_note(trimmed: &str) -> (r: String)
    ensures
        r@ == received_note(trimmed@),
{
    let mut note = String::from_str("Ввод от пользователя: '");
    note.append(trimmed);
    note.append("'");
    proof {
        assert(note@ =~= received_note(trimmed@));
    }
    note
}

/// Builds the log entry text for a rejected input line, around the
/// rendered error message.
fn build_rejected_note(trimmed: &str, rendered: &str) -> (r: String)
    ensures
        r@ == "Некорректный ввод: '"@ + trimmed@ + "'. Ошибка: "@ + rendered@,
{
    let mut note = String::from_str("Некорректный ввод: '");
    note.append(trimmed);
    note.append("'. Ошибка: ");
    note.append(rendered);
    proof {
        assert(note@ =~= "Некорректный ввод: '"@ + trimmed@ + "'. Ошибка: "@ + rendered@);
    }
    note
}

/// Builds the log entry text for the start of a computation.
fn build_started_note(index: &str) -> (r: String)
    ensures
        r@ == "Старт вычисления fibonacci("@ + index@ + ")"@,
{
    let mut note = String::from_str("Старт вычисления fibonacci(");
    note.append(index);
    note.append(")");
    proof {
        assert(note@ =~= "Старт вычисления fibonacci("@ + index@ + ")"@);
    }
    note
}

/// Builds the log entry text for a finished computation.
fn build_finished_note(index: &str, value: &str) -> (r: String)
    ensures
        r@ == "Конец вычисления: fibonacci("@ + index@ + ") = "@ + value@,
{
    let mut note = String::from_str("Конец вычисления: fibonacci(");
    note.append(index);
    note.append(") = ");
    note.append(value);
    proof {
        assert(note@ =~= "Конец вычисления: fibonacci("@ + index@ + ") = "@ + value@);
    }
    note
}

/// Computes the Fibonacci value of an accepted index and logs the start and
/// the end of the computation, or its overflow.
fn compute_outcome(logger: &mut Logger, n: u128) -> (r: LineOutcome)
    ensures
        fib(n as nat) <= u128::MAX ==> {
            &&& r matches LineOutcome::Computed { index, value } && index == n && value == fib(
                n as nat,
            ) as u128
            &&& appended(
                old(logger)@,
                final(logger)@,
                seq![started_note(n), finished_note(n, fib(n as nat) as u128)],
            )
        },
        fib(n as nat) > u128::MAX ==> {
            &&& r matches LineOutcome::Overflow { message } && message@ == retry_message(
                InputError::ComputationOverflow(n),
            )
            &&& appended(
                old(logger)@,
                final(logger)@,
                seq![started_note(n), input_error_message(InputError::ComputationOverflow(n))],
            )
        },
{
    let ghost pre = logger@;
    let index = u128_to_string(n);
    let started = build_started_note(index.as_str());
    logger.log(started.as_str());
    let ghost mid = logger@;
    proof {
        lemma_appended_one(pre, mid, started_note(n));
    }
    match fibonacci(n) {
        Ok(v) => {
            let value = u128_to_string(v);
            let finished = build_finished_note(index.as_str(), value.as_str());
            logger.log(finished.as_str());
            proof {
                lemma_appended_one(mid, logger@, finished_note(n, v));
                lemma_appended_join(
                    pre,
                    mid,
                    logger@,
                    seq![started_note(n)],
                    seq![finished_note(n, v)],
                );
                assert(seq![started_note(n)] + seq![finished_note(n, v)] =~= seq![
                    started_note(n),
                    finished_note(n, v),
                ]);
            }
            LineOutcome::Computed { index: n, value: v }
        },
        Err(_) => {
            let e = InputError::ComputationOverflow(n);
            let mut message = e.message();
            logger.log(message.as_str());
            proof {
                lemma_appended_one(mid, logger@, input_error_message(e));
                lemma_appended_join(
                    pre,
                    mid,
                    logger@,
                    seq![started_note(n)],
                    seq![input_error_message(e)],
                );
                assert(seq![started_note(n)] + seq![input_error_message(e)] =~= seq![
                    started_note(n),
                    input_error_message(e),
                ]);
            }
            message.append("\nПопробуйте снова или введите 'q' для выхода:");
            LineOutcome::Overflow { message }
        },
    }
}

/// Takes one raw input line and carries out everything the loop decides
/// from it: logging the received line, recognising the quit sentinel,
/// validating the line, computing the Fibonacci value of an accepted index,
/// and logging each of those events in order. The outcome tells the caller
/// what to print and whether to read on.
pub fn process_line(logger: &mut Logger, line: &str) -> (r: LineOutcome)
    ensures
        ({
            let t = trim_spec(line@);
            &&& (is_quit_line(t) ==> r is Quit && appended(
                old(logger)@,
                final(logger)@,
                seq![received_note(t)],
            ))
            &&& (!is_quit_line(t) && parse_spec(line@) is Err ==> {
                let e = parse_spec(line@)->Err_0;
                &&& r matches LineOutcome::InvalidInput { message } && message@ == retry_message(e)
                &&& appended(
                    old(logger)@,
                    final(logger)@,
                    seq![received_note(t), rejected_note(t, e)],
                )
            })
            &&& (!is_quit_line(t) && parse_spec(line@) is Ok ==> {
                let n = parse_spec(line@)->Ok_0;
                &&& (fib(n as nat) <= u128::MAX ==> {
                    &&& r matches LineOutcome::Computed { index, value } && index == n && value
                        == fib(n as nat) as u128
                    &&& appended(
                        old(logger)@,
                        final(logger)@,
                        seq![
                            received_note(t),
                            started_note(n),
                            finished_note(n, fib(n as nat) as u128),
                        ],
                    )
                })
                &&& (fib(n as nat) > u128::MAX ==> {
                    &&& r matches LineOutcome::Overflow { message } && message@ == retry_message(
                        InputError::ComputationOverflow(n),
                    )
                    &&& appended(
                        old(logger)@,
                        final(logger)@,
                        seq![
                            received_note(t),
                            started_note(n),
                            input_error_message(InputError::ComputationOverflow(n)),
                        ],
                    )
                })
            })
        }),
{
    let ghost pre = logger@;
    let ghost t = trim_spec(line@);
    let trimmed = trim(line);
    let received = build_received_note(trimmed);
    logger.log(received.as_str());
    let ghost mid = logger@;
    proof {
        lemma_appended_one(pre, mid, received_note(t));
    }
    if is_quit(trimmed) {
        return LineOutcome::Quit;
    }
    match parse_input(line) {
        Err(e) => {
            let rendered = e.message();
            let note = build_rejected_note(trimmed, rendered.as_str());
            logger.log(note.as_str());
            proof {
                lemma_appended_one(mid, logger@, rejected_note(t, e));
                lemma_appended_join(
                    pre,
                    mid,
                    logger@,
                    seq![received_note(t)],
                    seq![rejected_note(t, e)],
                );
                assert(seq![received_note(t)] + seq![rejected_note(t, e)] =~= seq![
                    received_note(t),
                    rejected_note(t, e),
                ]);
            }
            let mut message = rendered;
            message.append("\nПопробуйте снова или введите 'q' для выхода:");
            LineOutcome::InvalidInput { message }
        },
        Ok(n) => {
            let r = compute_outcome(logger, n);
            proof {
                if fib(n as nat) <= u128::MAX {
                    lemma_appended_join(
                        pre,
                        mid,
                        logger@,
                        seq![received_note(t)],
                        seq![started_note(n), finished_note(n, fib(n as nat) as u128)],
                    );
                    assert(seq![received_note(t)] + seq![
                        started_note(n),
                        finished_note(n, fib(n as nat) as u128),
                    ] =~= seq![
                        received_note(t),
                        started_note(n),
                        finished_note(n, fib(n as nat) as u128),
                    ]);
                } else {
                    lemma_appended_join(
                        pre,
                        mid,
                        logger@,
                        seq![received_note(t)],
                        seq![started_note(n), input_error_message(
                            InputError::ComputationOverflow(n),
                        )],
                    );
                    assert(seq![received_note(t)] + seq![
                        started_note(n),
                        input_error_message(InputError::ComputationOverflow(n)),
                    ] =~= seq![
                        received_note(t),
                        started_note(n),
                        input_error_message(InputError::ComputationOverflow(n)),
                    ]);
                }
            }
            r
        },
    }
}

} // verus!
