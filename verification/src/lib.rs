//! A minimal in-memory key-value store core: a Redis-like command set
//! executed against a single string-keyed store.
//!
//! The crate provides the command-execution semantics (`core_logic`) over
//! an exclusively owned [`store::CoreState`], the laws that semantics
//! obeys, and the decoder from tokenized requests to typed commands.
//! Transport concerns (socket handling, reading lines off the wire and
//! splitting them into tokens, encoding replies) are the connection
//! layer's responsibility and live outside this library.

pub mod base_logic;
pub mod laws;
pub mod resp;
pub mod store;
pub mod wire;

pub use base_logic::core_logic;
pub use base_logic::dispatch_fits;
pub use resp::RespData;
pub use store::Command;
pub use store::CoreState;
pub use wire::decode_line;
pub use wire::parse_command;
pub use wire::parse_i64;
pub use wire::tokenize;
