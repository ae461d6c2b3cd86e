//! A tolerant command-line option parser.
//!
//! A caller declares the recognized options as [`OptParseItem`] values
//! (short form, long form, whether a value must follow, default value and
//! help text), hands the raw argument vector to [`OptParse`], and then
//! queries resolved values and positional arguments through [`IOptParse`].
//! Malformed input never raises an error: an option whose value is missing
//! keeps its default, an unknown token is skipped, and lookups of
//! unregistered keys or out-of-range indices return the empty string.

pub mod item;
pub mod laws;
pub mod model;
pub mod parser;
pub mod text;

pub use item::OptParseItem;
pub use model::ItemView;
pub use model::ParserModel;
pub use parser::IOptParse;
pub use parser::OptParse;
