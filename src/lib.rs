//! A small command-line option registry: options are declared with short,
//! long or combined prefixes, typed defaults and instructions, and a raw
//! argument list is then dispatched to help, version or one typed option.
pub mod commander;
pub mod error;
pub mod laws;
pub mod prefix;
pub mod text;
pub mod value;

pub use commander::{ArgInfo, Commander, Outcome};
pub use error::CommandError;
pub use prefix::PrefixArg;
pub use value::{coerce_value, parse_int, ArgType, Value};
