use mini_realtime_server::actor::event::{
    InputEvent, InputJoinEvent, InputLeaveEvent, InputMessageEvent, OutputEvent,
};
use mini_realtime_server::actor::room::Room as RoomActor;
use mini_realtime_server::entity::player::Player;
use mini_realtime_server::entity::room::{Room, RoomConfig, RoomError};
use tokio::sync::mpsc;

fn ids<S>(players: &[Player<S>]) -> Vec<String> {
    players.iter().map(|p| p.id.clone()).collect()
}

#[test]
fn join_room_and_send_message_normal() {
    let mut room = Room::new("test".to_string(), RoomConfig { max_players: 2 });

    let (p1_tx, mut p1_rx) = mpsc::unbounded_channel();
    let p1_id = "p1".to_string();
    let p1 = Player::new(p1_id.clone(), p1_tx);

    let (p2_tx, mut p2_rx) = mpsc::unbounded_channel();
    let p2 = Player::new("p2".to_string(), p2_tx);

    let result = room.add_player(p1, &RoomConfig { max_players: 2 });
    assert!(result.is_ok());
    let result = room.add_player(p2, &RoomConfig { max_players: 2 });
    assert!(result.is_ok());

    let msg_to_p1 = "message to p1";
    let d = room.send(&p1_id, msg_to_p1);
    for p in d.recipients {
        p.sender.send(d.event).unwrap();
    }
    assert_eq!(msg_to_p1, p1_rx.try_recv().unwrap());
    assert!(p2_rx.try_recv().is_err());

    let broadcast_msg = "broadcast";
    let d = room.broadcast(broadcast_msg);
    for p in d.recipients {
        p.sender.send(d.event).unwrap();
    }
    assert_eq!(broadcast_msg, p1_rx.try_recv().unwrap());
    assert_eq!(broadcast_msg, p2_rx.try_recv().unwrap());
}

#[test]
fn failed_to_join_room_over_capacity() {
    let room_config = RoomConfig { max_players: 1 };
    let mut room = Room::new("test".to_string(), room_config.clone());

    let (tx, _) = mpsc::unbounded_channel::<()>();
    let p1 = Player::new("p1".to_string(), tx.clone());
    let p2_id = "p2".to_string();
    let p2 = Player::new(p2_id.clone(), tx);

    let result = room.add_player(p1, &room_config);
    assert!(result.is_ok());
    let result = room.add_player(p2, &room_config);
    assert_eq!(RoomError::RoomIsFull(room.id, p2_id), result.err().unwrap());
}

#[test]
fn failed_to_join_room_config_does_not_match() {
    let mut room = Room::new("test".to_string(), RoomConfig { max_players: 2 });

    let (tx, _) = mpsc::unbounded_channel::<()>();
    let p1_id = "p1".to_string();
    let p1 = Player::new(p1_id.clone(), tx);

    let result = room.add_player(p1, &RoomConfig { max_players: 1 });
    assert_eq!(
        RoomError::RoomConfigDoesNotMatch(room.id, p1_id),
        result.err().unwrap(),
    );
}

#[test]
fn leave_room_and_num_players_normal() {
    let room_config = RoomConfig { max_players: 2 };
    let mut room = Room::new("test".to_string(), room_config.clone());

    let (tx, _) = mpsc::unbounded_channel::<()>();
    let p1 = Player::new("p1".to_string(), tx.clone());
    let p2_id = "p2".to_string();
    let p2 = Player::new(p2_id.clone(), tx);

    room.add_player(p1, &room_config).unwrap();
    room.add_player(p2, &room_config).unwrap();

    assert_eq!(2, room.num_players());
    assert!(room.remove_player(&p2_id));
    assert_eq!(1, room.num_players());
}

#[test]
fn rejoin_is_refused_and_changes_nothing() {
    let config = RoomConfig { max_players: 3 };
    let mut room = Room::new("r".to_string(), config);
    room.add_player(Player::new("p1".to_string(), 1u32), &config).unwrap();
    let result = room.add_player(Player::new("p1".to_string(), 2u32), &config);
    assert_eq!(
        Err(RoomError::AlreadyJoinedRoom("r".to_string(), "p1".to_string())),
        result
    );
    assert_eq!(1, room.num_players());
    assert_eq!(1u32, room.players[0].sender);
}

#[test]
fn config_is_checked_before_membership_and_capacity() {
    let config = RoomConfig { max_players: 1 };
    let mut room = Room::new("r".to_string(), config);
    room.add_player(Player::new("p1".to_string(), ()), &config).unwrap();
    let result = room.add_player(Player::new("p1".to_string(), ()), &RoomConfig { max_players: 2 });
    assert_eq!(
        Err(RoomError::RoomConfigDoesNotMatch("r".to_string(), "p1".to_string())),
        result
    );
    let result = room.add_player(Player::new("p1".to_string(), ()), &config);
    assert_eq!(
        Err(RoomError::AlreadyJoinedRoom("r".to_string(), "p1".to_string())),
        result
    );
}

#[test]
fn join_at_exactly_max_players_succeeds_and_one_more_is_full() {
    let config = RoomConfig { max_players: 3 };
    let mut room = Room::new("r".to_string(), config);
    for id in ["a", "b", "c"] {
        assert!(room.add_player(Player::new(id.to_string(), ()), &config).is_ok());
    }
    assert_eq!(3, room.num_players());
    let result = room.add_player(Player::new("d".to_string(), ()), &config);
    assert_eq!(Err(RoomError::RoomIsFull("r".to_string(), "d".to_string())), result);
    assert_eq!(vec!["a", "b", "c"], ids(&room.players));
}

#[test]
fn remove_absent_player_reports_false() {
    let config = RoomConfig::default();
    assert_eq!(2, config.max_players);
    let mut room = Room::new("r".to_string(), config);
    room.add_player(Player::new("p1".to_string(), ()), &config).unwrap();
    assert!(!room.remove_player(&"p2".to_string()));
    assert!(room.is_joined(&"p1".to_string()));
    assert!(!room.is_joined(&"p2".to_string()));
    assert_eq!(1, room.num_players());
}

#[test]
fn send_to_each_keeps_target_order_and_skips_strangers() {
    let config = RoomConfig { max_players: 3 };
    let mut room = Room::new("r".to_string(), config);
    for (i, id) in ["a", "b", "c"].iter().enumerate() {
        room.add_player(Player::new(id.to_string(), i), &config).unwrap();
    }
    let targets = vec!["c".to_string(), "x".to_string(), "a".to_string(), "c".to_string()];
    let d = room.send_to_each(&targets, 7u8);
    assert_eq!(7u8, d.event);
    assert_eq!(vec!["c", "a", "c"], ids(&d.recipients));
    assert_eq!(vec![2, 0, 2], d.recipients.iter().map(|p| p.sender).collect::<Vec<_>>());
    let d = room.send(&"x".to_string(), 1u8);
    assert!(d.recipients.is_empty());
}

fn join(room: &mut RoomActor<usize>, id: &str, sink: usize, max_players: u32) -> (Vec<String>, OutputEvent, bool) {
    let step = room.handle(InputEvent::Join(InputJoinEvent {
        player: Player::new(id.to_string(), sink),
        room_config: RoomConfig { max_players },
    }));
    (ids(&step.dispatch.recipients), step.dispatch.event, step.terminated)
}

#[test]
fn room_actor_join_broadcasts_to_all_members_with_member_list() {
    let mut room = RoomActor::new(Room::new("r".to_string(), RoomConfig { max_players: 2 }));
    let (to, event, terminated) = join(&mut room, "p1", 0, 2);
    assert_eq!(vec!["p1"], to);
    assert!(!terminated);
    let (to, event2, _) = join(&mut room, "p2", 1, 2);
    assert_eq!(vec!["p1", "p2"], to);
    match event2 {
        OutputEvent::Join(Ok(j)) => {
            assert_eq!("r", j.room_id);
            assert_eq!("p2", j.player_id);
            assert_eq!(vec!["p1", "p2"], j.room_player_ids);
            assert_eq!(RoomConfig { max_players: 2 }, j.room_config);
        }
        other => panic!("unexpected event {:?}", other),
    }
    match event {
        OutputEvent::Join(Ok(j)) => assert_eq!(vec!["p1"], j.room_player_ids),
        other => panic!("unexpected event {:?}", other),
    }
}

#[test]
fn room_actor_refusals_go_to_the_joiner_only() {
    let mut room = RoomActor::new(Room::new("r".to_string(), RoomConfig { max_players: 1 }));
    join(&mut room, "p1", 0, 1);
    let (to, event, terminated) = join(&mut room, "p2", 1, 1);
    assert_eq!(vec!["p2"], to);
    assert!(!terminated);
    assert!(matches!(event, OutputEvent::Join(Err(RoomError::RoomIsFull(_, _)))));
    let (to, event, _) = join(&mut room, "p3", 2, 5);
    assert_eq!(vec!["p3"], to);
    assert!(matches!(event, OutputEvent::Join(Err(RoomError::RoomConfigDoesNotMatch(_, _)))));
    let (to, event, _) = join(&mut room, "p1", 0, 1);
    assert_eq!(vec!["p1"], to);
    assert!(matches!(event, OutputEvent::Join(Err(RoomError::AlreadyJoinedRoom(_, _)))));
    assert_eq!(1, room.room.num_players());
}

#[test]
fn room_actor_leave_reaches_leaver_and_terminates_when_empty() {
    let mut room = RoomActor::new(Room::new("r".to_string(), RoomConfig { max_players: 2 }));
    join(&mut room, "p1", 0, 2);
    join(&mut room, "p2", 1, 2);
    let step = room.handle(InputEvent::Leave(InputLeaveEvent { player_id: "p2".to_string() }));
    assert_eq!(vec!["p1", "p2"], ids(&step.dispatch.recipients));
    assert!(!step.terminated);
    let step = room.handle(InputEvent::Leave(InputLeaveEvent { player_id: "p2".to_string() }));
    assert!(step.dispatch.recipients.is_empty());
    assert!(!step.terminated);
    let step = room.handle(InputEvent::Leave(InputLeaveEvent { player_id: "p1".to_string() }));
    assert_eq!(vec!["p1"], ids(&step.dispatch.recipients));
    match step.dispatch.event {
        OutputEvent::Leave(ev) => {
            assert_eq!("r", ev.room_id);
            assert_eq!("p1", ev.player_id);
        }
        other => panic!("unexpected event {:?}", other),
    }
    assert!(step.terminated);
}

#[test]
fn room_actor_message_broadcast_and_unicast() {
    let mut room = RoomActor::new(Room::new("r".to_string(), RoomConfig { max_players: 2 }));
    join(&mut room, "p1", 0, 2);
    join(&mut room, "p2", 1, 2);
    let step = room.handle(InputEvent::Message(InputMessageEvent {
        sender_player_id: "p1".to_string(),
        target_ids: vec![],
        body: b"b1".to_vec(),
    }));
    assert_eq!(vec!["p1", "p2"], ids(&step.dispatch.recipients));
    let step = room.handle(InputEvent::Message(InputMessageEvent {
        sender_player_id: "p2".to_string(),
        target_ids: vec!["p1".to_string(), "ghost".to_string()],
        body: b"b2".to_vec(),
    }));
    assert_eq!(vec!["p1"], ids(&step.dispatch.recipients));
    match step.dispatch.event.duplicate() {
        OutputEvent::Message(m) => {
            assert_eq!("r", m.room_id);
            assert_eq!("p2", m.sender_player_id);
            assert_eq!(b"b2".to_vec(), m.body);
        }
        other => panic!("unexpected event {:?}", other),
    }
}

#[test]
fn room_with_zero_capacity_terminates_on_first_join() {
    let mut room = RoomActor::new(Room::new("r".to_string(), RoomConfig { max_players: 0 }));
    let (to, event, terminated) = join(&mut room, "p1", 0, 0);
    assert_eq!(vec!["p1"], to);
    assert!(matches!(event, OutputEvent::Join(Err(RoomError::RoomIsFull(_, _)))));
    assert!(terminated);
}

#[test]
fn each_delivery_goes_through_the_members_own_sink() {
    let mut room = RoomActor::new(Room::new("r".to_string(), RoomConfig { max_players: 3 }));
    join(&mut room, "p1", 10, 3);
    join(&mut room, "p2", 20, 3);
    let step = room.handle(InputEvent::Join(InputJoinEvent {
        player: Player::new("p3".to_string(), 30),
        room_config: RoomConfig { max_players: 3 },
    }));
    let sinks: Vec<usize> = step.dispatch.recipients.iter().map(|p| p.sender).collect();
    assert_eq!(vec![10, 20, 30], sinks);

    let step = room.handle(InputEvent::Join(InputJoinEvent {
        player: Player::new("p4".to_string(), 40),
        room_config: RoomConfig { max_players: 3 },
    }));
    let sinks: Vec<usize> = step.dispatch.recipients.iter().map(|p| p.sender).collect();
    assert_eq!(vec![40], sinks);

    let step = room.handle(InputEvent::Leave(InputLeaveEvent { player_id: "p2".to_string() }));
    let sinks: Vec<usize> = step.dispatch.recipients.iter().map(|p| p.sender).collect();
    assert_eq!(vec![10, 20, 30], sinks);

    let step = room.handle(InputEvent::Message(InputMessageEvent {
        sender_player_id: "p1".to_string(),
        target_ids: vec!["p3".to_string()],
        body: b"x".to_vec(),
    }));
    let sinks: Vec<usize> = step.dispatch.recipients.iter().map(|p| p.sender).collect();
    assert_eq!(vec![30], sinks);
}
