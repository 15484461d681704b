//! A Fibonacci calculator library: an overflow-safe arithmetic engine, a
//! strict input validator with a precise error taxonomy, bilingual (RU/EN)
//! error rendering, a timestamped in-memory logger, and the decision logic
//! of the interactive read-compute-print loop.

pub mod decimal;
pub mod errors;
pub mod fibonacci;
pub mod input;
pub mod logger;
pub mod session;

pub use errors::ComputationError;
pub use errors::InputError;
pub use fibonacci::fibonacci;
pub use input::parse_input;
pub use logger::Logger;
pub use session::process_line;
pub use session::render_result;
pub use session::LineOutcome;
