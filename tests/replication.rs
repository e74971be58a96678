use std::collections::HashSet;

use maelstrom_node::broadcast::{BroadcastBody, BroadcastNode};
use maelstrom_node::grow_counter::{CounterBody, CounterNode};
use maelstrom_node::init::NodeMetadata;
use maelstrom_node::node::{Event, MaelstromMessage, Node, Reply};

fn meta(id: &str, ids: &[&str]) -> NodeMetadata {
    NodeMetadata {
        node_id: id.to_string(),
        node_ids: ids.iter().map(|s| s.to_string()).collect(),
    }
}

fn set(v: &[usize]) -> HashSet<usize> {
    v.iter().copied().collect()
}

fn read(n: &mut BroadcastNode) -> HashSet<usize> {
    match (BroadcastBody::Read { msg_id: 1 }).into_reply(n, &"c".to_string()) {
        Some(BroadcastBody::ReadOk { messages, .. }) => {
            let s: HashSet<usize> = messages.iter().copied().collect();
            assert_eq!(s.len(), messages.len());
            s
        }
        other => panic!("unexpected reply {:?}", other),
    }
}

fn topology(n: &mut BroadcastNode, entries: &[(&str, &[&str])]) {
    let topology = entries
        .iter()
        .map(|(k, v)| (k.to_string(), v.iter().map(|s| s.to_string()).collect()))
        .collect();
    let r = (BroadcastBody::Topology { msg_id: 2, topology }).into_reply(n, &"c".to_string());
    assert_eq!(r, Some(BroadcastBody::TopologyOk { in_reply_to: 2, msg_id: n.current_msg_id }));
}

fn deliver(to: &mut BroadcastNode, m: MaelstromMessage<BroadcastBody>) -> Vec<MaelstromMessage<BroadcastBody>> {
    to.handle_event(Event::Message(m))
}

#[test]
fn broadcast_then_read() {
    let mut n = BroadcastNode::node_init(meta("n1", &["n1", "n2"]));
    let r = (BroadcastBody::Broadcast { msg_id: 4, message: 9 }).into_reply(&mut n, &"c".to_string());
    assert_eq!(r, Some(BroadcastBody::BroadcastOk { msg_id: 0, in_reply_to: 4 }));
    (BroadcastBody::Broadcast { msg_id: 5, message: 9 }).into_reply(&mut n, &"c".to_string());
    (BroadcastBody::Broadcast { msg_id: 6, message: 3 }).into_reply(&mut n, &"c".to_string());
    assert_eq!(read(&mut n), set(&[3, 9]));
    assert_eq!(n.other_node_ids, vec!["n2".to_string()]);
}

#[test]
fn topology_adopts_own_neighbors() {
    let mut n = BroadcastNode::node_init(meta("n2", &["n1", "n2", "n3"]));
    topology(&mut n, &[("n1", &["n2"]), ("n2", &["n1", "n3"]), ("n3", &["n2"])]);
    assert_eq!(n.neighbors, vec!["n1".to_string(), "n3".to_string()]);
}

#[test]
fn gossip_redelivery_is_idempotent() {
    let mut n = BroadcastNode::node_init(meta("n1", &["n1", "n2"]));
    let g = BroadcastBody::Gossip { msg_id: 1, message: vec![1, 2, 3] };
    let r = g.clone().into_reply(&mut n, &"n2".to_string());
    assert_eq!(
        r,
        Some(BroadcastBody::GossipOk { in_reply_to: 1, msg_id: 0, ack_message: vec![1, 2, 3] })
    );
    let once = n.clone();
    g.into_reply(&mut n, &"n2".to_string());
    assert_eq!(read(&mut n), set(&[1, 2, 3]));
    assert_eq!(n, once);
}

#[test]
fn tick_gossips_only_unconfirmed_values() {
    let mut n = BroadcastNode::node_init(meta("n1", &["n1", "n2", "n3"]));
    topology(&mut n, &[("n1", &["n2", "n3"])]);
    for v in [1usize, 2, 3] {
        (BroadcastBody::Broadcast { msg_id: v, message: v }).into_reply(&mut n, &"c".to_string());
    }
    // n2 acknowledges 1 and 2; n3 sent us 3, so it has 3.
    (BroadcastBody::GossipOk { in_reply_to: 0, msg_id: 0, ack_message: vec![1, 2] })
        .into_reply(&mut n, &"n2".to_string());
    (BroadcastBody::Gossip { msg_id: 0, message: vec![3] }).into_reply(&mut n, &"n3".to_string());
    let sent = n.handle_event(Event::PropogateWrites);
    assert_eq!(sent.len(), 2);
    assert_eq!(sent[0].src, "n1");
    assert_eq!(sent[0].dest, "n2");
    assert_eq!(sent[0].body, BroadcastBody::Gossip { msg_id: 0, message: vec![3] });
    assert_eq!(sent[1].dest, "n3");
    match &sent[1].body {
        BroadcastBody::Gossip { msg_id, message } => {
            assert_eq!(*msg_id, 1);
            assert_eq!(set(message), set(&[1, 2]));
        }
        other => panic!("unexpected body {:?}", other),
    }
    assert_eq!(n.current_msg_id, 2);
    // Once everything is confirmed, a tick sends nothing.
    (BroadcastBody::GossipOk { in_reply_to: 0, msg_id: 0, ack_message: vec![3] })
        .into_reply(&mut n, &"n2".to_string());
    (BroadcastBody::GossipOk { in_reply_to: 1, msg_id: 0, ack_message: vec![1, 2] })
        .into_reply(&mut n, &"n3".to_string());
    assert!(n.handle_event(Event::PropogateWrites).is_empty());
}

#[test]
fn gossip_converges_on_a_line_of_three() {
    let ids = ["n1", "n2", "n3"];
    let mut nodes: Vec<BroadcastNode> =
        ids.iter().map(|id| BroadcastNode::node_init(meta(id, &ids))).collect();
    let topo: [(&str, &[&str]); 3] = [("n1", &["n2"]), ("n2", &["n1", "n3"]), ("n3", &["n2"])];
    for n in nodes.iter_mut() {
        topology(n, &topo);
    }
    (BroadcastBody::Broadcast { msg_id: 1, message: 10 }).into_reply(&mut nodes[0], &"c".to_string());
    (BroadcastBody::Broadcast { msg_id: 1, message: 30 }).into_reply(&mut nodes[2], &"c".to_string());
    (BroadcastBody::Broadcast { msg_id: 1, message: 20 }).into_reply(&mut nodes[1], &"c".to_string());
    let index = |id: &str| ids.iter().position(|x| *x == id).unwrap();
    for _round in 0..4 {
        let mut in_flight = Vec::new();
        for n in nodes.iter_mut() {
            in_flight.extend(n.handle_event(Event::PropogateWrites));
        }
        // Deliver in reverse order, then the acknowledgements.
        in_flight.reverse();
        let mut acks = Vec::new();
        for m in in_flight {
            let to = index(&m.dest);
            acks.extend(deliver(&mut nodes[to], m));
        }
        for a in acks {
            let to = index(&a.dest);
            assert!(deliver(&mut nodes[to], a).is_empty());
        }
    }
    for n in nodes.iter_mut() {
        assert_eq!(read(n), set(&[10, 20, 30]));
    }
    for n in nodes.iter_mut() {
        assert!(n.handle_event(Event::PropogateWrites).is_empty());
    }
}

fn counter_read(n: &mut CounterNode) -> usize {
    match (CounterBody::Read { msg_id: 1 }).into_reply(n, &"c".to_string()) {
        Some(CounterBody::ReadOk { value, .. }) => value,
        other => panic!("unexpected reply {:?}", other),
    }
}

fn add(n: &mut CounterNode, delta: usize) {
    let r = (CounterBody::Add { msg_id: 3, delta }).into_reply(n, &"c".to_string());
    assert_eq!(r, Some(CounterBody::AddOk { msg_id: n.current_msg_id, in_reply_to: 3 }));
}

#[test]
fn counter_add_and_read() {
    let mut n = CounterNode::node_init(meta("n1", &["n1", "n2"]));
    assert_eq!(counter_read(&mut n), 0);
    add(&mut n, 5);
    add(&mut n, 0);
    add(&mut n, 7);
    assert_eq!(counter_read(&mut n), 12);
    assert_eq!(n.node_counter_map, vec![("n1".to_string(), 12)]);
}

#[test]
fn counter_merge_keeps_larger_counts() {
    let mut n = CounterNode::node_init(meta("n1", &["n1", "n2", "n3"]));
    add(&mut n, 4);
    let update = CounterBody::UpdateCounters {
        msg_id: 0,
        node_counter_map: vec![("n1".to_string(), 2), ("n2".to_string(), 6)],
    };
    assert_eq!(update.clone().into_reply(&mut n, &"n2".to_string()), None);
    assert_eq!(counter_read(&mut n), 10);
    let stale = CounterBody::UpdateCounters { msg_id: 1, node_counter_map: vec![("n2".to_string(), 3)] };
    stale.into_reply(&mut n, &"n2".to_string());
    assert_eq!(counter_read(&mut n), 10);
    // Delivering the same update again changes nothing.
    update.into_reply(&mut n, &"n2".to_string());
    assert_eq!(counter_read(&mut n), 10);
}

#[test]
fn counters_converge_to_total_of_adds() {
    let ids = ["n1", "n2", "n3"];
    let mut nodes: Vec<CounterNode> =
        ids.iter().map(|id| CounterNode::node_init(meta(id, &ids))).collect();
    add(&mut nodes[0], 3);
    add(&mut nodes[1], 4);
    add(&mut nodes[2], 5);
    add(&mut nodes[0], 1);
    let index = |id: &str| ids.iter().position(|x| *x == id).unwrap();
    let mut out = Vec::new();
    for n in nodes.iter_mut() {
        let sent = n.handle_event(Event::PropogateWrites);
        assert_eq!(sent.len(), 2);
        out.extend(sent);
    }
    out.reverse();
    for m in out {
        let to = index(&m.dest);
        assert!(nodes[to].handle_event(Event::Message(m)).is_empty());
    }
    for n in nodes.iter_mut() {
        assert_eq!(counter_read(n), 13);
    }
}

#[test]
fn counter_tick_shares_table_with_every_peer() {
    let mut n = CounterNode::node_init(meta("n2", &["n1", "n2", "n3"]));
    add(&mut n, 8);
    let sent = n.handle_event(Event::PropogateWrites);
    assert_eq!(sent.len(), 2);
    assert_eq!(sent[0].dest, "n1");
    assert_eq!(sent[1].dest, "n3");
    assert_eq!(
        sent[1].body,
        CounterBody::UpdateCounters { msg_id: 1, node_counter_map: vec![("n2".to_string(), 8)] }
    );
    assert_eq!(n.current_msg_id, 2);
}

#[test]
fn counter_total_reports_overflow() {
    let mut n = CounterNode::node_init(meta("n1", &["n1"]));
    n.node_counter_map = vec![("a".to_string(), usize::MAX), ("b".to_string(), 1)];
    assert_eq!(n.total_count(), None);
    n.node_counter_map = vec![("a".to_string(), usize::MAX - 1), ("b".to_string(), 1)];
    assert_eq!(n.total_count(), Some(usize::MAX));
}
