//! Field extraction and calendar composition.

pub mod ambient;
pub mod calendar;
pub mod clock;
pub mod compact;
pub mod completion;
pub mod instant;
pub mod laws;
pub mod names;
pub mod parse;
pub mod pattern;
pub mod record;
pub mod text;
pub mod time;
pub mod triple;
pub mod zone;
pub mod zonetab;

pub use parse::date_parse;
pub use parse::date_parse2;
pub use instant::Instant;
pub use record::DateTime;
