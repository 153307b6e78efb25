use pinochle::room::{Completion, Room};

#[test]
fn it_works() {
    assert_eq!(2 + 2, 4);
}

#[test]
fn a_room_starts_empty() {
    let room: Room<u8> = Room::new();
    assert_eq!(room.keys(), vec![]);
    assert!(!room.contains(&1));
    assert_eq!(room.pending(&1), 0);
}

#[test]
fn each_mailbox_is_first_in_first_out() {
    let mut room: Room<&str> = Room::new();
    room.enter(3);
    room.enter(5);
    room.send_to(&3, "a");
    room.broadcast("b");
    room.send_to(&5, "c");
    room.send_to(&3, "d");
    room.send_to(&4, "lost");
    assert_eq!(room.pending(&3), 3);
    assert_eq!(room.pending(&5), 2);
    assert_eq!(room.take(&3), vec!["a", "b", "d"]);
    assert_eq!(room.take(&5), vec!["b", "c"]);
    assert_eq!(room.take(&3), Vec::<&str>::new());
    assert_eq!(room.take(&4), Vec::<&str>::new());
    assert!(room.contains(&3) && room.contains(&5) && !room.contains(&4));
}

#[test]
fn broadcast_to_reaches_those_the_filter_accepts() {
    let mut room: Room<u32> = Room::new();
    for key in [1, 2, 3, 4] {
        room.enter(key);
    }
    room.broadcast_to(|key| key % 2 == 0, 7);
    assert_eq!(room.take(&1), vec![]);
    assert_eq!(room.take(&2), vec![7]);
    assert_eq!(room.take(&3), vec![]);
    assert_eq!(room.take(&4), vec![7]);
}

#[test]
fn send_asks_for_each_connection() {
    let mut room: Room<usize> = Room::new();
    for key in [10, 20, 30] {
        room.enter(key);
    }
    room.send(|key| if *key == 20 { None } else { Some(key + 1) });
    room.send(|key| Some(key + 2));
    assert_eq!(room.take(&10), vec![11, 12]);
    assert_eq!(room.take(&20), vec![22]);
    assert_eq!(room.take(&30), vec![31, 32]);
}

#[test]
fn a_connection_that_leaves_loses_its_mailbox() {
    let mut room: Room<u8> = Room::new();
    room.enter(1);
    room.enter(2);
    room.enter(3);
    room.broadcast(9);
    room.leave(&2);
    room.leave(&7);
    let mut keys = room.keys();
    keys.sort();
    assert_eq!(keys, vec![1, 3]);
    room.broadcast(8);
    assert_eq!(room.take(&2), vec![]);
    assert_eq!(room.take(&1), vec![9, 8]);
    assert_eq!(room.take(&3), vec![9, 8]);
    room.enter(3);
    room.enter(2);
    assert_eq!(room.pending(&3), 0);
    room.send_to(&2, 1);
    room.enter(2);
    assert_eq!(room.take(&2), vec![]);
    let mut keys = room.keys();
    keys.sort();
    assert_eq!(keys, vec![1, 2, 3]);
}

#[test]
fn completion_says_whether_a_connection_stays() {
    assert_ne!(Completion::Continue, Completion::Finished);
}
