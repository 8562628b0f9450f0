use sfu_server::message::{Command, SendingMessage};
use sfu_server::room::Room;
use sfu_server::worker::WorkerSet;

fn room() -> Room {
    Room::new("room1".to_string(), 4, WorkerSet { slot: 2, port: 31302 })
}

fn published(peer: u64, track_id: &str) -> Command {
    Command::Notify {
        peer,
        message: SendingMessage::Published { publisher_ids: vec![track_id.to_string()] },
    }
}

#[test]
fn new_room_is_empty() {
    let room = room();
    assert_eq!(room.id(), "room1");
    assert_eq!(room.router(), 4);
    assert_eq!(room.worker(), WorkerSet { slot: 2, port: 31302 });
    assert_eq!(room.peer_count(), 0);
    assert_eq!(room.get_peers(1), Vec::<u64>::new());
    assert_eq!(room.publisher_ids(), Vec::<String>::new());
}

#[test]
fn peers_are_kept_in_joining_order() {
    let mut room = room();
    room.add_user(5);
    room.add_user(3);
    room.add_user(9);
    assert_eq!(room.peer_count(), 3);
    assert_eq!(room.get_peers(0), vec![5, 3, 9]);
}

#[test]
fn peer_is_added_once() {
    let mut room = room();
    room.add_user(5);
    room.add_user(3);
    room.add_user(5);
    assert_eq!(room.peer_count(), 2);
    assert_eq!(room.get_peers(0), vec![5, 3]);
}

#[test]
fn remove_user_returns_the_number_left() {
    let mut room = room();
    room.add_user(5);
    room.add_user(3);
    room.add_user(9);
    assert_eq!(room.remove_user(3), 2);
    assert_eq!(room.get_peers(0), vec![5, 9]);
    assert_eq!(room.remove_user(3), 2);
    assert_eq!(room.remove_user(7), 2);
    assert_eq!(room.remove_user(5), 1);
    assert_eq!(room.remove_user(9), 0);
    assert_eq!(room.remove_user(9), 0);
    assert_eq!(room.peer_count(), 0);
}

#[test]
fn get_peers_leaves_the_asker_out() {
    let mut room = room();
    room.add_user(1);
    room.add_user(2);
    room.add_user(3);
    assert_eq!(room.get_peers(2), vec![1, 3]);
    assert_eq!(room.get_peers(1), vec![2, 3]);
    assert_eq!(room.get_peers(4), vec![1, 2, 3]);
    assert_eq!(room.peer_count(), 3);
}

#[test]
fn get_peers_is_a_snapshot() {
    let mut room = room();
    room.add_user(1);
    room.add_user(2);
    let before = room.get_peers(1);
    room.add_user(3);
    room.remove_user(2);
    assert_eq!(before, vec![2]);
    assert_eq!(room.get_peers(1), vec![3]);
}

#[test]
fn tracks_are_listed_in_registration_order() {
    let mut room = room();
    room.register_publisher("t1".to_string(), 1);
    room.register_publisher("t2".to_string(), 2);
    room.register_publisher("t3".to_string(), 1);
    assert_eq!(room.publisher_ids(), vec!["t1", "t2", "t3"]);
    assert_eq!(room.publisher_of(&"t1".to_string()), Some(1));
    assert_eq!(room.publisher_of(&"t2".to_string()), Some(2));
    assert_eq!(room.publisher_of(&"t4".to_string()), None);
}

#[test]
fn later_registration_replaces_the_earlier() {
    let mut room = room();
    room.register_publisher("t1".to_string(), 1);
    room.register_publisher("t2".to_string(), 1);
    room.register_publisher("t1".to_string(), 2);
    assert_eq!(room.publisher_ids(), vec!["t2", "t1"]);
    assert_eq!(room.publisher_of(&"t1".to_string()), Some(2));
}

#[test]
fn unregistered_track_is_not_listed() {
    let mut room = room();
    room.register_publisher("t1".to_string(), 1);
    room.register_publisher("t2".to_string(), 2);
    room.unregister_publisher(&"t1".to_string());
    assert_eq!(room.publisher_ids(), vec!["t2"]);
    assert_eq!(room.publisher_of(&"t1".to_string()), None);
    room.unregister_publisher(&"t1".to_string());
    room.unregister_publisher(&"never".to_string());
    assert_eq!(room.publisher_ids(), vec!["t2"]);
}

#[test]
fn released_owner_has_no_track_left() {
    let mut room = room();
    room.register_publisher("t1".to_string(), 1);
    room.register_publisher("t2".to_string(), 2);
    room.register_publisher("t3".to_string(), 1);
    room.release_publishers(1);
    assert_eq!(room.publisher_ids(), vec!["t2"]);
    room.release_publishers(7);
    assert_eq!(room.publisher_ids(), vec!["t2"]);
}

#[test]
fn broadcast_reaches_every_other_peer() {
    let mut room = room();
    room.add_user(1);
    room.add_user(2);
    room.add_user(3);
    assert_eq!(
        room.broadcast_new_publisher(2, &"t1".to_string()),
        vec![published(1, "t1"), published(3, "t1")]
    );
    assert_eq!(
        room.broadcast_new_publisher(9, &"t1".to_string()),
        vec![published(1, "t1"), published(2, "t1"), published(3, "t1")]
    );
}

#[test]
fn broadcast_in_a_room_of_one_reaches_nobody() {
    let mut room = room();
    room.add_user(1);
    assert_eq!(room.broadcast_new_publisher(1, &"t1".to_string()), Vec::<Command>::new());
}
