use chat_hub::envelope::{MsgKind, WsMessage};
use chat_hub::pool::Pool;
use chat_hub::session::Inbound;
use chat_hub::text::{prefixed_decimal, push_decimal};
use tokio::sync::mpsc::{unbounded_channel, UnboundedReceiver};

fn drain(rx: &mut UnboundedReceiver<WsMessage>) -> Vec<(MsgKind, String)> {
    let mut out = Vec::new();
    while let Ok(m) = rx.try_recv() {
        out.push((m.msg_type, m.content));
    }
    out
}

fn cmd(s: &str) -> (MsgKind, String) {
    (MsgKind::Command, s.to_string())
}

fn join(pool: &mut Pool) -> (u64, UnboundedReceiver<WsMessage>) {
    let (tx, rx) = unbounded_channel();
    let joined = pool.connect(tx).expect("identifiers left");
    (joined.id, rx)
}

#[test]
fn decimal_forms() {
    assert_eq!(prefixed_decimal("", 0), "0");
    assert_eq!(prefixed_decimal("add:", 7), "add:7");
    assert_eq!(prefixed_decimal("#", 1234567890), "#1234567890");
    let mut s = String::from("x");
    push_decimal(&mut s, u64::MAX);
    assert_eq!(s, "x18446744073709551615");
}

#[test]
fn notices_have_wire_contents() {
    assert_eq!(WsMessage::add(2).content, "add:2");
    assert_eq!(WsMessage::quit(10).content, "quit:10");
    assert_eq!(WsMessage::assigned_id(3).content, "#3");
    assert_eq!(WsMessage::close().content, "close");
    let r = WsMessage::relay(1, "hi");
    assert_eq!((r.msg_type, r.content.as_str()), (MsgKind::Text, "User #1: hi"));
}

#[test]
fn population_reply_is_json_array() {
    assert_eq!(WsMessage::population(&vec![]).content, "pop:[]");
    assert_eq!(WsMessage::population(&vec![1]).content, "pop:[1]");
    assert_eq!(WsMessage::population(&vec![1, 20, 300]).content, "pop:[1,20,300]");
}

#[test]
fn populate_is_recognised() {
    assert!(WsMessage::new(MsgKind::Command, "populate".to_string()).is_populate());
    assert!(!WsMessage::new(MsgKind::Text, "populate".to_string()).is_populate());
    assert!(!WsMessage::new(MsgKind::Command, "populates".to_string()).is_populate());
}

#[test]
fn connects_get_distinct_increasing_ids() {
    let mut pool = Pool::new();
    let mut rxs = Vec::new();
    for expected in 1..=5u64 {
        let (id, rx) = join(&mut pool);
        assert_eq!(id, expected);
        rxs.push(rx);
    }
    assert_eq!(pool.snapshot(), vec![1, 2, 3, 4, 5]);
    pool.remove(3);
    let (id, _rx) = join(&mut pool);
    assert_eq!(id, 6);
    assert_eq!(pool.snapshot(), vec![1, 2, 4, 5, 6]);
}

#[test]
fn arrival_announced_to_existing_only() {
    let mut pool = Pool::new();
    let (_a, mut ra) = join(&mut pool);
    let (tx, mut rb) = unbounded_channel();
    let joined = pool.connect(tx).unwrap();
    assert_eq!(joined.announced_to, vec![1]);
    assert_eq!(drain(&mut ra), vec![cmd("#1"), cmd("add:2")]);
    assert_eq!(drain(&mut rb), vec![cmd("#2")]);
}

#[test]
fn populate_lists_others_ascending() {
    let mut pool = Pool::new();
    let (_a, _ra) = join(&mut pool);
    let (b, mut rb) = join(&mut pool);
    let (_c, _rc) = join(&mut pool);
    drain(&mut rb);
    let ev = Inbound::Frame(WsMessage::new(MsgKind::Command, "populate".to_string()));
    let h = pool.handle(b, &ev);
    assert!(!h.plan.stop);
    assert!(h.notified.is_empty());
    assert_eq!(drain(&mut rb), vec![cmd("pop:[1,3]")]);
}

#[test]
fn populate_alone_is_empty_list() {
    let mut pool = Pool::new();
    let (a, mut ra) = join(&mut pool);
    drain(&mut ra);
    let ev = Inbound::Frame(WsMessage::new(MsgKind::Command, "populate".to_string()));
    pool.handle(a, &ev);
    assert_eq!(drain(&mut ra), vec![cmd("pop:[]")]);
}

#[test]
fn text_goes_to_others_not_sender() {
    let mut pool = Pool::new();
    let (a, mut ra) = join(&mut pool);
    let (_b, mut rb) = join(&mut pool);
    let (_c, mut rc) = join(&mut pool);
    drain(&mut ra);
    drain(&mut rb);
    drain(&mut rc);
    let ev = Inbound::Frame(WsMessage::new(MsgKind::Text, "hello".to_string()));
    let h = pool.handle(a, &ev);
    assert_eq!(h.notified, vec![2, 3]);
    let relayed = (MsgKind::Text, "User #1: hello".to_string());
    assert_eq!(drain(&mut rb), vec![relayed.clone()]);
    assert_eq!(drain(&mut rc), vec![relayed]);
    assert!(drain(&mut ra).is_empty());
}

#[test]
fn other_commands_are_ignored() {
    let mut pool = Pool::new();
    let (a, mut ra) = join(&mut pool);
    let (_b, mut rb) = join(&mut pool);
    drain(&mut ra);
    drain(&mut rb);
    let ev = Inbound::Frame(WsMessage::new(MsgKind::Command, "dance".to_string()));
    let h = pool.handle(a, &ev);
    assert!(!h.plan.stop && h.plan.reply.is_none() && h.plan.notice.is_none());
    assert!(drain(&mut ra).is_empty());
    assert!(drain(&mut rb).is_empty());
}

#[test]
fn graceful_close_announces_quit() {
    let mut pool = Pool::new();
    let (a, mut ra) = join(&mut pool);
    let (_b, mut rb) = join(&mut pool);
    drain(&mut ra);
    drain(&mut rb);
    let h = pool.handle(a, &Inbound::Closed);
    assert!(h.plan.stop);
    assert_eq!(h.notified, vec![2]);
    pool.remove(a);
    assert_eq!(drain(&mut rb), vec![cmd("quit:1")]);
    assert!(drain(&mut ra).is_empty());
    assert_eq!(pool.snapshot(), vec![2]);
}

#[test]
fn fault_ends_session_silently() {
    let mut pool = Pool::new();
    let (a, _ra) = join(&mut pool);
    let (_b, mut rb) = join(&mut pool);
    drain(&mut rb);
    let h = pool.handle(a, &Inbound::Faulty);
    assert!(h.plan.stop);
    assert!(h.notified.is_empty());
    pool.remove(a);
    assert!(drain(&mut rb).is_empty());
    assert_eq!(pool.snapshot(), vec![2]);
}

#[test]
fn shutdown_reaches_everyone() {
    let mut pool = Pool::new();
    let (_a, mut ra) = join(&mut pool);
    let (_b, mut rb) = join(&mut pool);
    drain(&mut ra);
    drain(&mut rb);
    assert_eq!(pool.shutdown(), vec![1, 2]);
    assert_eq!(drain(&mut ra), vec![cmd("close")]);
    assert_eq!(drain(&mut rb), vec![cmd("close")]);
}

#[test]
fn closed_queue_does_not_stop_broadcast() {
    let mut pool = Pool::new();
    let (_a, ra) = join(&mut pool);
    let (_b, mut rb) = join(&mut pool);
    drop(ra);
    drain(&mut rb);
    assert_eq!(pool.shutdown(), vec![1, 2]);
    assert_eq!(drain(&mut rb), vec![cmd("close")]);
}

#[test]
fn removing_absent_id_is_noop() {
    let mut pool = Pool::new();
    let (a, _ra) = join(&mut pool);
    pool.remove(42);
    assert_eq!(pool.snapshot(), vec![a]);
    pool.remove(a);
    pool.remove(a);
    assert!(pool.snapshot().is_empty());
    assert!(!pool.contains(a));
}

#[test]
fn insert_keeps_ascending_order() {
    let mut pool = Pool::new();
    for _ in 0..4 {
        pool.allocate();
    }
    let (t1, _r1) = unbounded_channel();
    let (t2, _r2) = unbounded_channel();
    let (t3, _r3) = unbounded_channel();
    pool.insert(3, t1);
    pool.insert(1, t2);
    pool.insert(2, t3);
    assert_eq!(pool.snapshot(), vec![1, 2, 3]);
    assert_eq!(pool.others(Some(2)), vec![1, 3]);
}

#[test]
fn two_client_scenario() {
    let mut pool = Pool::new();
    let (a, mut ra) = join(&mut pool);
    assert_eq!(drain(&mut ra), vec![cmd("#1")]);
    let (b, mut rb) = join(&mut pool);
    assert_eq!(drain(&mut ra), vec![cmd("add:2")]);
    assert_eq!(drain(&mut rb), vec![cmd("#2")]);
    let populate = Inbound::Frame(WsMessage::new(MsgKind::Command, "populate".to_string()));
    pool.handle(b, &populate);
    assert_eq!(drain(&mut rb), vec![cmd("pop:[1]")]);
    let hi = Inbound::Frame(WsMessage::new(MsgKind::Text, "hi".to_string()));
    pool.handle(a, &hi);
    assert_eq!(drain(&mut rb), vec![(MsgKind::Text, "User #1: hi".to_string())]);
    let h = pool.handle(a, &Inbound::Closed);
    assert!(h.plan.stop);
    pool.remove(a);
    assert_eq!(drain(&mut rb), vec![cmd("quit:1")]);
    assert!(drain(&mut ra).is_empty());
}
