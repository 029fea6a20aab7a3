//! A small runtime for message-passing nodes that speak a request/reply
//! protocol with an initial handshake.
//!
//! The crate holds the envelope model, the handshake, the interface that a
//! node behaviour implements, and the rules by which a host drives a node
//! over a stream of decoded messages. Reading and writing the stream is left
//! to the host.

pub mod message;
pub mod handshake;
pub mod node;
pub mod runtime;
pub mod echo;
pub mod unique_ids;
pub mod standalone;

pub use handshake::Init;
pub use message::Body;
pub use message::Message;
pub use node::Node;
pub use runtime::main_loop;
