//! A declarative model of a command line: nested actions, options, flags and
//! positional parameters, with the rules that keep a declaration consistent.

pub mod error;
pub mod command_line;
pub mod entries;
pub mod parameter;
mod positional;

pub use command_line::CommandLine;
pub use error::CommandLineError;
pub use parameter::{validate_optional_identifiers, MandatoryParameter, OptionalParameter};
