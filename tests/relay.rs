use clipsync::group::Room;
use clipsync::handler::{Connection, Step};
use clipsync::protocol::{ClientMessage, ServerMessage};
use clipsync::registry::{drop_flag, total_members, RoomManager};
use clipsync::types::{ClipboardEntry, ClipboardItem};
use clipsync::crypto::hash_secret;
use tokio::sync::mpsc::{unbounded_channel, UnboundedReceiver};

fn text_of(item: &ClipboardItem) -> String {
    match item {
        ClipboardItem::Text(s) => s.clone(),
        ClipboardItem::Image { data, .. } => data.clone(),
    }
}

fn entry(text: &str, timestamp: u64) -> ClipboardEntry {
    ClipboardEntry::at(ClipboardItem::text(text.to_string()), timestamp)
}

fn drain(rx: &mut UnboundedReceiver<ServerMessage>) -> Vec<ServerMessage> {
    let mut out = Vec::new();
    while let Ok(m) = rx.try_recv() {
        out.push(m);
    }
    out
}

/// Runs one frame through the connection and the room, as the relay does,
/// and returns the reply to the sender.
fn run(conn: &mut Connection, room: &mut Room, tx: &tokio::sync::mpsc::UnboundedSender<ServerMessage>, msg: ClientMessage) -> ServerMessage {
    match conn.handle(Ok(msg)) {
        Step::Join { device_id, .. } => room.join_member(device_id, tx.clone()),
        Step::Publish { entry } => {
            let sender = entry.device_id.clone().unwrap();
            room.publish(entry, &sender).0
        }
        Step::SendHistory => room.history_reply(),
        Step::Reply { message } => message,
    }
}

#[test]
fn two_clients_share_a_clip_and_late_joiner_sees_it() {
    let hash = hash_secret("s1");
    let mut room = Room::new(50);
    let (ta, mut ra) = unbounded_channel();
    let (tb, mut rb) = unbounded_channel();
    let (tc, mut rc) = unbounded_channel();
    let mut a = Connection::new();
    let mut b = Connection::new();
    let mut c = Connection::new();
    let ja = run(&mut a, &mut room, &ta, ClientMessage::join(hash.clone(), "A".to_string()));
    assert!(matches!(ja, ServerMessage::Joined { ref history } if history.is_empty()));
    run(&mut b, &mut room, &tb, ClientMessage::join(hash.clone(), "B".to_string()));
    let ack = run(&mut a, &mut room, &ta, ClientMessage::new_clip(ClipboardItem::text("hello".to_string()), 1000));
    assert!(matches!(ack, ServerMessage::Ack { timestamp: 1000 }));
    let got_b = drain(&mut rb);
    assert_eq!(got_b.len(), 1);
    match &got_b[0] {
        ServerMessage::ClipReceived { entry } => {
            assert_eq!(text_of(&entry.item), "hello");
            assert_eq!(entry.timestamp, 1000);
            assert_eq!(entry.device_id.as_deref(), Some("A"));
        }
        _ => panic!("expected a clip"),
    }
    assert!(drain(&mut ra).is_empty());
    let jc = run(&mut c, &mut room, &tc, ClientMessage::join(hash, "C".to_string()));
    match jc {
        ServerMessage::Joined { history } => {
            assert_eq!(history.len(), 1);
            assert_eq!(text_of(&history[0].item), "hello");
            assert_eq!(history[0].timestamp, 1000);
            assert_eq!(history[0].device_id.as_deref(), Some("A"));
        }
        _ => panic!("expected joined"),
    }
    assert!(drain(&mut rc).is_empty());
}

#[test]
fn late_joiner_gets_only_the_last_two() {
    let mut room = Room::new(2);
    let (ta, _ra) = unbounded_channel();
    let mut a = Connection::new();
    run(&mut a, &mut room, &ta, ClientMessage::join("g".to_string(), "A".to_string()));
    for t in 1..=3u64 {
        run(&mut a, &mut room, &ta, ClientMessage::new_clip(ClipboardItem::text(format!("c{}", t)), t));
    }
    let (tl, _rl) = unbounded_channel();
    let mut late = Connection::new();
    match run(&mut late, &mut room, &tl, ClientMessage::join("g".to_string(), "L".to_string())) {
        ServerMessage::Joined { history } => {
            let stamps: Vec<u64> = history.iter().map(|e| e.timestamp).collect();
            assert_eq!(stamps, vec![2, 3]);
        }
        _ => panic!("expected joined"),
    }
}

#[test]
fn new_clip_before_join_is_refused_then_join_works() {
    let mut room = Room::new(5);
    let (tx, _rx) = unbounded_channel();
    let mut conn = Connection::new();
    let reply = run(&mut conn, &mut room, &tx, ClientMessage::new_clip(ClipboardItem::text("x".to_string()), 7));
    assert!(matches!(reply, ServerMessage::Error { ref message } if message == "not joined"));
    assert!(conn.device_id().is_none());
    assert!(room.get_history().is_empty());
    let joined = run(&mut conn, &mut room, &tx, ClientMessage::join("g".to_string(), "D".to_string()));
    assert!(matches!(joined, ServerMessage::Joined { .. }));
    assert_eq!(conn.device_id().as_deref(), Some("D"));
    assert_eq!(room.client_count(), 1);
}

#[test]
fn second_join_is_refused() {
    let mut conn = Connection::new();
    let first = conn.handle(Ok(ClientMessage::join("g".to_string(), "D".to_string())));
    assert!(matches!(first, Step::Join { .. }));
    let second = conn.handle(Ok(ClientMessage::join("h".to_string(), "E".to_string())));
    assert!(matches!(second, Step::Reply { message: ServerMessage::Error { ref message } } if message == "already joined"));
    assert_eq!(conn.device_id().as_deref(), Some("D"));
}

#[test]
fn ping_and_history_requests() {
    let mut conn = Connection::new();
    assert!(matches!(conn.handle(Ok(ClientMessage::Ping)), Step::Reply { message: ServerMessage::Pong }));
    assert!(matches!(
        conn.handle(Ok(ClientMessage::RequestHistory)),
        Step::Reply { message: ServerMessage::Error { ref message } } if message == "not joined"
    ));
    conn.handle(Ok(ClientMessage::join("g".to_string(), "D".to_string())));
    assert!(matches!(conn.handle(Ok(ClientMessage::Ping)), Step::Reply { message: ServerMessage::Pong }));
    assert!(matches!(conn.handle(Ok(ClientMessage::RequestHistory)), Step::SendHistory));
}

#[test]
fn malformed_frame_gets_an_error_and_keeps_state() {
    let mut conn = Connection::new();
    let step = conn.handle(Err("expected value".to_string()));
    assert!(matches!(step, Step::Reply { message: ServerMessage::Error { ref message } } if message == "invalid message: expected value"));
    assert!(conn.device_id().is_none());
}

#[test]
fn broadcast_skips_sender_and_reaches_each_other_member_once() {
    let mut room = Room::new(10);
    let (t1, mut r1) = unbounded_channel();
    let (t2, mut r2) = unbounded_channel();
    let (t3, mut r3) = unbounded_channel();
    room.add_client("one".to_string(), t1);
    room.add_client("two".to_string(), t2);
    room.add_client("three".to_string(), t3);
    let reached = room.broadcast(entry("x", 1), "two");
    assert_eq!(reached, vec!["one".to_string(), "three".to_string()]);
    assert_eq!(drain(&mut r1).len(), 1);
    assert_eq!(drain(&mut r2).len(), 0);
    assert_eq!(drain(&mut r3).len(), 1);
}

#[test]
fn broadcast_to_closed_queue_does_not_stop_others() {
    let mut room = Room::new(10);
    let (t1, r1) = unbounded_channel();
    let (t2, mut r2) = unbounded_channel();
    room.add_client("one".to_string(), t1);
    room.add_client("two".to_string(), t2);
    drop(r1);
    let reached = room.broadcast(entry("x", 1), "nobody");
    assert_eq!(reached.len(), 2);
    assert_eq!(drain(&mut r2).len(), 1);
}

#[test]
fn reconnect_replaces_queue() {
    let mut room = Room::new(10);
    let (old_tx, mut old_rx) = unbounded_channel();
    let (new_tx, mut new_rx) = unbounded_channel();
    room.add_client("d".to_string(), old_tx);
    room.add_client("d".to_string(), new_tx);
    assert_eq!(room.client_count(), 1);
    room.broadcast(entry("x", 1), "other");
    assert_eq!(drain(&mut old_rx).len(), 0);
    assert_eq!(drain(&mut new_rx).len(), 1);
}

#[test]
fn joins_and_leaves_track_emptiness() {
    let mut room = Room::new(3);
    assert!(room.is_empty());
    let (t1, _r1) = unbounded_channel();
    let (t2, _r2) = unbounded_channel();
    room.add_client("a".to_string(), t1);
    room.add_client("b".to_string(), t2);
    assert!(!room.is_empty());
    room.remove_client("a");
    room.remove_client("a");
    assert!(!room.is_empty());
    assert_eq!(room.client_count(), 1);
    room.remove_client("b");
    assert!(room.is_empty());
    assert_eq!(room.client_count(), 0);
}

#[test]
fn history_evicts_oldest_first() {
    let mut room = Room::new(3);
    for t in 1..=5u64 {
        room.add_to_history(entry("e", t));
        assert!(room.get_history().len() <= 3);
    }
    let stamps: Vec<u64> = room.get_history().iter().map(|e| e.timestamp).collect();
    assert_eq!(stamps, vec![3, 4, 5]);
}

#[test]
fn zero_capacity_keeps_no_history() {
    let mut room = Room::new(0);
    room.add_to_history(entry("e", 1));
    assert!(room.get_history().is_empty());
}

#[test]
fn publish_appends_and_acks() {
    let mut room = Room::new(4);
    let (t1, mut r1) = unbounded_channel();
    room.add_client("peer".to_string(), t1);
    let e = entry("p", 42).with_device_id("me".to_string());
    let (ack, reached) = room.publish(e, "me");
    assert!(matches!(ack, ServerMessage::Ack { timestamp: 42 }));
    assert_eq!(reached, vec!["peer".to_string()]);
    assert_eq!(room.get_history().len(), 1);
    assert_eq!(drain(&mut r1).len(), 1);
    assert!(matches!(room.history_reply(), ServerMessage::History { ref entries } if entries.len() == 1));
}

#[test]
fn registry_keeps_one_group_per_id_and_sweeps_empty_ones() {
    let mut mgr = RoomManager::new(5);
    let g1 = mgr.get_or_create_room("aaaaaaaa".to_string());
    let g1_again = mgr.get_or_create_room("aaaaaaaa".to_string());
    assert!(std::sync::Arc::ptr_eq(&g1, &g1_again));
    let g2 = mgr.get_or_create_room("bbbbbbbb".to_string());
    assert_eq!(mgr.get_stats(), (2, 0));
    let (tx, _rx) = unbounded_channel();
    g2.try_write().unwrap().add_client("d".to_string(), tx);
    assert_eq!(mgr.get_stats(), (2, 1));
    mgr.cleanup_empty_rooms();
    assert_eq!(mgr.get_stats(), (1, 1));
    let g2_again = mgr.get_or_create_room("bbbbbbbb".to_string());
    assert!(std::sync::Arc::ptr_eq(&g2, &g2_again));
}

#[test]
fn sweep_keeps_a_group_that_is_locked() {
    let mut mgr = RoomManager::new(5);
    let g = mgr.get_or_create_room("cccccccc".to_string());
    let guard = g.try_write().unwrap();
    mgr.cleanup_empty_rooms();
    assert_eq!(mgr.get_stats().0, 1);
    drop(guard);
    mgr.cleanup_empty_rooms();
    assert_eq!(mgr.get_stats().0, 0);
}

#[test]
fn sweep_by_flags() {
    let mut mgr = RoomManager::new(5);
    mgr.get_or_create_room("a".to_string());
    mgr.get_or_create_room("b".to_string());
    mgr.get_or_create_room("c".to_string());
    mgr.sweep(&vec![true, false, true]);
    assert_eq!(mgr.get_stats().0, 1);
}

#[test]
fn member_totals_skip_unreadable_groups_and_saturate() {
    assert_eq!(total_members(&vec![]), 0);
    assert_eq!(total_members(&vec![Some(2), None, Some(3)]), 5);
    assert_eq!(total_members(&vec![Some(usize::MAX), Some(1)]), usize::MAX);
}

#[test]
fn broadcast_hands_the_entry_itself_to_others_only() {
    let mut room = Room::new(50);
    let (ta, mut ra) = unbounded_channel();
    let (tb, mut rb) = unbounded_channel();
    room.add_client("A".to_string(), ta);
    room.add_client("B".to_string(), tb);
    let e = entry("hello", 1000).with_device_id("A".to_string());
    room.broadcast(e, "A");
    assert!(drain(&mut ra).is_empty());
    let got = drain(&mut rb);
    assert_eq!(got.len(), 1);
    match &got[0] {
        ServerMessage::ClipReceived { entry } => {
            assert_eq!(text_of(&entry.item), "hello");
            assert_eq!(entry.timestamp, 1000);
            assert_eq!(entry.device_id.as_deref(), Some("A"));
        }
        _ => panic!("expected a clip"),
    }
}

#[test]
fn only_groups_read_as_empty_are_dropped() {
    assert!(drop_flag(Some(true)));
    assert!(!drop_flag(Some(false)));
    assert!(!drop_flag(None));
}

#[test]
fn lookup_finds_only_existing_groups() {
    let mut mgr = RoomManager::new(5);
    assert!(mgr.get_room(&"g".to_string()).is_none());
    let g = mgr.get_or_create_room("g".to_string());
    let found = mgr.get_room(&"g".to_string()).unwrap();
    assert!(std::sync::Arc::ptr_eq(&g, &found));
    mgr.cleanup_empty_rooms();
    assert!(mgr.get_room(&"g".to_string()).is_none());
}
