//! A topic-addressed publish/request message broker.
//!
//! A [`Host`] owns a [`store::TopicStore`]: a mapping from topic name to the
//! most recently published value, kept as an encoded envelope.  A typed
//! [`Node`] publishes values to its one topic and requests the current value
//! back.  Values travel as bytes through the wire codec in [`wire`], and the
//! store can be written out to bytes and restored, so the latest value per
//! topic survives a restart.

pub mod error;
pub mod host;
pub mod laws;
pub mod node;
pub mod payload;
pub mod store;
pub mod wire;

pub use error::Error;
pub use host::Host;
pub use host::HostConfig;
pub use node::Msg;
pub use node::Node;
pub use node::NodeConfig;
pub use payload::Payload;
pub use payload::Position;
pub use payload::UserInput;
