use turtlesim::Error;
use turtlesim::Host;
use turtlesim::HostConfig;
use turtlesim::Node;
use turtlesim::NodeConfig;
use turtlesim::Position;
use turtlesim::UserInput;

#[test]
fn double_start_fails_with_bind_error() {
    let mut host = HostConfig::default().build();
    host.start().unwrap();
    assert_eq!(host.start(), Err(Error::BindError));
    // The host still serves after the failed second start.
    let mut node: Node<UserInput> = NodeConfig::new("n").build();
    node.connect(&host).unwrap();
    node.publish(&mut host, &UserInput::default()).unwrap();
}

#[test]
fn start_after_stop_fails_with_bind_error() {
    let mut host = HostConfig::default().build();
    host.start().unwrap();
    host.stop().unwrap();
    assert_eq!(host.start(), Err(Error::BindError));
}

#[test]
fn stop_before_start_fails_with_host_not_running() {
    let mut host = HostConfig::default().build();
    assert_eq!(host.stop(), Err(Error::HostNotRunning));
    host.start().unwrap();
    host.stop().unwrap();
    assert_eq!(host.stop(), Err(Error::HostNotRunning));
}

#[test]
fn operations_after_stop_fail_with_host_not_running() {
    let mut host = HostConfig::default().build();
    host.start().unwrap();
    let mut node: Node<UserInput> = NodeConfig::new("n").build();
    node.connect(&host).unwrap();
    node.publish(&mut host, &UserInput::default()).unwrap();
    host.stop().unwrap();
    assert_eq!(
        node.publish(&mut host, &UserInput::default()),
        Err(Error::HostNotRunning)
    );
    assert!(matches!(node.request(&mut host), Err(Error::HostNotRunning)));
}

#[test]
fn connect_before_start_fails_with_connection_error() {
    let host = HostConfig::default().build();
    let mut node: Node<UserInput> = NodeConfig::new("n").build();
    assert_eq!(node.connect(&host), Err(Error::ConnectionError));
}

#[test]
fn connect_with_empty_topic_fails_with_connection_error() {
    let mut host = HostConfig::default().build();
    host.start().unwrap();
    let mut node: Node<UserInput> = NodeConfig::new("n").topic("").build();
    assert_eq!(node.connect(&host), Err(Error::ConnectionError));
}

#[test]
fn use_before_connect_fails_with_connection_error() {
    let mut host = HostConfig::default().build();
    host.start().unwrap();
    let node: Node<UserInput> = NodeConfig::new("n").build();
    assert_eq!(
        node.publish(&mut host, &UserInput::default()),
        Err(Error::ConnectionError)
    );
    assert!(matches!(node.request(&mut host), Err(Error::ConnectionError)));
}

#[test]
fn type_mismatch_fails_with_decode_error() {
    let mut host = HostConfig::default().build();
    host.start().unwrap();
    let mut writer: Node<Position> = NodeConfig::new("w").topic("shared").build();
    let mut reader: Node<UserInput> = NodeConfig::new("r").topic("shared").build();
    writer.connect(&host).unwrap();
    reader.connect(&host).unwrap();

    writer
        .publish(&mut host, &Position { x: 1, y: 2, yaw: 3 })
        .unwrap();
    assert!(matches!(reader.request(&mut host), Err(Error::DecodeError)));
    // The stored value itself is intact for the right type.
    assert_eq!(
        writer.request(&mut host).unwrap().data,
        Position { x: 1, y: 2, yaw: 3 }
    );
}

#[test]
fn bad_snapshot_bytes_fail_with_store_open_error() {
    let mut host = HostConfig::default().build();
    assert_eq!(host.start_from_snapshot(&[1, 2, 3]), Err(Error::StoreOpenError));

    // A truncated snapshot is rejected too, and the host can still start
    // fresh afterwards.
    let mut donor = HostConfig::default().build();
    donor.start().unwrap();
    let mut node: Node<UserInput> = NodeConfig::new("n").build();
    node.connect(&donor).unwrap();
    node.publish(&mut donor, &UserInput { forward: 1, turn: 2 }).unwrap();
    let mut bytes = donor.snapshot();
    bytes.pop();
    assert_eq!(host.start_from_snapshot(&bytes), Err(Error::StoreOpenError));
    host.start().unwrap();
}

#[test]
fn start_from_snapshot_on_started_host_fails_with_bind_error() {
    let mut donor = HostConfig::default().build();
    donor.start().unwrap();
    let bytes = donor.snapshot();
    assert_eq!(donor.start_from_snapshot(&bytes), Err(Error::BindError));
}
