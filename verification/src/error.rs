use vstd::prelude::*;

verus! {

/// Everything that can go wrong in the broker, as one taxonomy shared by
/// the host and the node sides.
#[derive(Clone, Copy, Debug, PartialEq, Eq, Structural)]
pub enum Error {
    /// The host's transport could not be bound, or `start` was called on a
    /// host that is not freshly built.
    BindError,
    /// The persisted store could not be opened or parsed at start.
    StoreOpenError,
    /// The node could not reach the host, or was used before `connect`.
    ConnectionError,
    /// A value could not be encoded for the wire.
    EncodeError,
    /// Bytes did not match the expected payload type or wire format.
    DecodeError,
    /// A request was made for a topic that nothing was ever published to.
    TopicNotFound,
    /// An operation reached the host while it was not in its started state.
    HostNotRunning,
}

} // verus!
