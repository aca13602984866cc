use turtlesim::Host;
use turtlesim::HostConfig;
use turtlesim::Node;
use turtlesim::NodeConfig;
use turtlesim::Position;
use turtlesim::UserInput;

#[test]
fn test_user_input_and_position() {
    // Get the host up and running
    let mut host: Host = HostConfig::default().build();
    host.start().unwrap();
    println!("Host should be running in the background");

    let mut ui_node: Node<UserInput> = NodeConfig::new("test_user_input").build();
    ui_node.connect(&host).unwrap();

    let mut position_node: Node<Position> = NodeConfig::new("test_position").build();
    position_node.connect(&host).unwrap();

    println!("- Both nodes successfully connected");

    let user_input = UserInput {
        turn: (0.0f32).to_bits(),
        forward: (0.0f32).to_bits(),
    };

    ui_node.publish(&mut host, &user_input.clone()).unwrap();
    let output = ui_node.request(&mut host).unwrap();
    println!("deserialized output: {:?}", output.data);
    assert_eq!(user_input, output.data);

    let position = Position {
        x: (1.0f32).to_bits(),
        y: (2.0f32).to_bits(),
        yaw: (45.0f32).to_bits(),
    };
    position_node.publish(&mut host, &position.clone()).unwrap();
    let output = position_node.request(&mut host).unwrap();
    println!("deserialized output: {:?}", position);
    assert_eq!(position, output.data);
    host.stop().unwrap();
}

#[test]
fn request_before_any_publish_is_topic_not_found() {
    let mut host = HostConfig::default().build();
    host.start().unwrap();
    let mut position_node: Node<Position> = NodeConfig::new("watcher").topic("position").build();
    position_node.connect(&host).unwrap();

    let r = position_node.request(&mut host);
    assert!(matches!(r, Err(turtlesim::Error::TopicNotFound)));

    // A caller-side default-substitution policy: fall back to the origin.
    let position = match position_node.request(&mut host) {
        Ok(msg) => msg.data,
        Err(_) => Position::default(),
    };
    assert_eq!(position, Position { x: 0, y: 0, yaw: 0 });
    assert_eq!(f32::from_bits(position.x), 0.0);
    assert_eq!(f32::from_bits(position.yaw), 0.0);
}

#[test]
fn last_write_wins_on_one_topic() {
    let mut host = HostConfig::default().build();
    host.start().unwrap();
    let mut node: Node<UserInput> = NodeConfig::new("driver").topic("user_input").build();
    node.connect(&host).unwrap();

    let v1 = UserInput::default().forward((1.0f32).to_bits());
    let v2 = UserInput::default().turn((-1.0f32).to_bits());
    node.publish(&mut host, &v1).unwrap();
    node.publish(&mut host, &v2).unwrap();

    let got = node.request(&mut host).unwrap();
    assert_eq!(got.data, v2);
    assert_ne!(got.data, v1);
    // The reply carries the stamp of the publish that stored it: the second
    // write of this host, not the first.
    assert_eq!(got.timestamp, 1);
}

#[test]
fn two_topics_never_interfere() {
    let mut host = HostConfig::default().build();
    host.start().unwrap();
    let mut ui_node: Node<UserInput> = NodeConfig::new("a").topic("user_input").build();
    let mut position_node: Node<Position> = NodeConfig::new("b").topic("position").build();
    ui_node.connect(&host).unwrap();
    position_node.connect(&host).unwrap();

    let ui = UserInput { forward: 7, turn: 8 };
    let pos = Position { x: 1, y: 2, yaw: 3 };
    // Interleave writes from the two nodes.
    ui_node.publish(&mut host, &ui).unwrap();
    position_node.publish(&mut host, &pos).unwrap();
    let ui2 = UserInput { forward: 9, turn: 10 };
    ui_node.publish(&mut host, &ui2).unwrap();

    assert_eq!(position_node.request(&mut host).unwrap().data, pos);
    assert_eq!(ui_node.request(&mut host).unwrap().data, ui2);
}

#[test]
fn restart_with_snapshot_preserves_latest_values() {
    let mut host = HostConfig::default().store_location("scratch").build();
    host.start().unwrap();
    let mut node: Node<Position> = NodeConfig::new("c").topic("position").build();
    node.connect(&host).unwrap();

    let stale = Position { x: 5, y: 5, yaw: 5 };
    let latest = Position { x: 11, y: 22, yaw: 33 };
    node.publish(&mut host, &stale).unwrap();
    node.publish(&mut host, &latest).unwrap();

    // What an app would write to the configured store location at stop.
    let bytes = host.snapshot();
    host.stop().unwrap();

    // A fresh host at the same store location reads the snapshot back.
    let mut revived = HostConfig::default().store_location("scratch").build();
    revived.start_from_snapshot(&bytes).unwrap();
    let mut node2: Node<Position> = NodeConfig::new("d").topic("position").build();
    node2.connect(&revived).unwrap();
    let got = node2.request(&mut revived).unwrap();
    assert_eq!(got.data, latest);
}
