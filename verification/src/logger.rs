//! The in-memory log: timestamped entries kept in insertion order,
//! append-only for the life of the process.

use vstd::prelude::*;

use crate::decimal::is_digit_char;

verus! {

/// The shape of a rendered wall-clock timestamp `YYYY-MM-DD HH:MM:SS.mmm`:
/// a year of at least four characters (digits, the first of which may be a
/// sign for years outside four digits), then fixed-width zero-padded month,
/// day, hour, minute, second and millisecond fields behind their
/// separators.
pub open spec fn timestamp_shape(ts: Seq<char>) -> bool {
    let p = ts.len() - 19;
    &&& ts.len() >= 23
    &&& (is_digit_char(ts[0]) || ts[0] == '+' || ts[0] == '-')
    &&& (forall|i: int| 1 <= i < p ==> is_digit_char(#[trigger] ts[i]))
    &&& ts[p] == '-' && is_digit_char(ts[p + 1]) && is_digit_char(ts[p + 2])
    &&& ts[p + 3] == '-' && is_digit_char(ts[p + 4]) && is_digit_char(ts[p + 5])
    &&& ts[p + 6] == ' ' && is_digit_char(ts[p + 7]) && is_digit_char(ts[p + 8])
    &&& ts[p + 9] == ':' && is_digit_char(ts[p + 10]) && is_digit_char(ts[p + 11])
    &&& ts[p + 12] == ':' && is_digit_char(ts[p + 13]) && is_digit_char(ts[p + 14])
    &&& ts[p + 15] == '.' && is_digit_char(ts[p + 16]) && is_digit_char(ts[p + 17])
        && is_digit_char(ts[p + 18])
}

/// Whether `entry` is `message` behind a wall-clock timestamp: an opening
/// bracket, the timestamp text, a closing bracket, a space, the message.
pub open spec fn entry_for(entry: Seq<char>, message: Seq<char>) -> bool {
    exists|ts: Seq<char>| timestamp_shape(ts) && entry == "["@ + ts + "] "@ + message
}

/// An append-only log of timestamped messages. No entry is ever removed or
/// changed once written.
pub struct Logger {
    entries: Vec<String>,
}

impl View for Logger {
    type V = Seq<Seq<char>>;

    closed spec fn view(&self) -> Seq<Seq<char>> {
        self.entries@.map_values(|s: String| s@)
    }
}

/// Relies on `chrono::Local::now` and `DateTime::format` with the layout
/// `%Y-%m-%d %H:%M:%S%.3f`: the current local wall-clock time rendered as
/// `YYYY-MM-DD HH:MM:SS.mmm`. chrono writes the year zero-padded to at
/// least four digits, signed only outside the range 0 to 9999, every other
/// field zero-padded to its fixed width, and the millisecond field as a
/// point and exactly three digits, so the result has the shape
/// `timestamp_shape` states, at least 23 characters.
#[verifier::external_body]
fn current_timestamp() -> (r: String)
    ensures
        timestamp_shape(r@),
{
    chrono::Local::now().format("%Y-%m-%d %H:%M:%S%.3f").to_string()
}

impl Logger {
    /// Creates an empty log.
    pub fn new() -> (r: Logger)
        ensures
            r@ == Seq::<Seq<char>>::empty(),
    {
        let l = Logger { entries: Vec::new() };
        proof {
            assert(l@ =~= Seq::<Seq<char>>::empty());
        }
        l
    }

    /// Appends `message` behind the current wall-clock timestamp. Every
    /// earlier entry stays in place unchanged.
    pub fn log(&mut self, message: &str)
        ensures
            final(self)@.len() == old(self)@.len() + 1,
            forall|i: int| 0 <= i < old(self)@.len() ==> final(self)@[i] == old(self)@[i],
            entry_for(final(self)@.last(), message@),
    {
        let ts = current_timestamp();
        let mut entry = String::from_str("[");
        entry.append(ts.as_str());
        entry.append("] ");
        entry.append(message);
        proof {
            assert(timestamp_shape(ts@) && entry@ == "["@ + ts@ + "] "@ + message@);
        }
        self.entries.push(entry);
    }

    /// All entries, oldest first.
    pub fn entries(&self) -> (r: &[String])
        ensures
            r@.map_values(|s: String| s@) == self@,
    {
        self.entries.as_slice()
    }
}

impl Default for Logger {
    /// Creates an empty log.
    fn default() -> (r: Logger)
        ensures
            r@ == Seq::<Seq<char>>::empty(),
    {
        Logger::new()
    }
}

} // verus!
