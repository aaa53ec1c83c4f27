//! Parsing of single lines of the IRC wire protocol into immutable,
//! cheaply clonable records, with typed extraction of known command and
//! tag shapes.
//!
//! A line is tokenized in one pass into index ranges for metadata tags,
//! an origin prefix, the mandatory command, and the arguments.  The
//! resulting [`Message`] shares its backing buffer and range lists across
//! clones by reference counting, and hands out byte slices of the
//! original input without copying.

pub mod arc_slice;
pub mod client;
pub mod command;
pub mod error;
pub mod line;
pub mod message;
pub mod parser;
pub mod server;
pub mod span;
pub mod tag;

pub use command::Command;
pub use error::MessageParseError;
pub use message::Message;
pub use tag::Tag;
