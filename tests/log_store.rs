use maelstrom_node::init::NodeMetadata;
use maelstrom_node::kafka::{poll_log, KafkaBody, KafkaNode};
use maelstrom_node::node::{Event, MaelstromMessage, Node, Reply};

fn node() -> KafkaNode {
    KafkaNode::node_init(NodeMetadata { node_id: "n1".to_string(), node_ids: vec!["n1".to_string()] })
}

fn src() -> String {
    "c1".to_string()
}

fn send(n: &mut KafkaNode, key: &str, msg: usize) -> usize {
    match (KafkaBody::Send { msg_id: 1, key: key.to_string(), msg }).into_reply(n, &src()) {
        Some(KafkaBody::SendOk { offset, .. }) => offset,
        other => panic!("unexpected reply {:?}", other),
    }
}

fn poll(n: &mut KafkaNode, req: &[(&str, usize)]) -> Vec<(String, Vec<(usize, usize)>)> {
    let offsets = req.iter().map(|(k, o)| (k.to_string(), *o)).collect();
    match (KafkaBody::Poll { msg_id: 2, offsets }).into_reply(n, &src()) {
        Some(KafkaBody::PollOk { msgs, in_reply_to, .. }) => {
            assert_eq!(in_reply_to, 2);
            msgs
        }
        other => panic!("unexpected reply {:?}", other),
    }
}

#[test]
fn send_poll_commit_round_trip() {
    let mut n = node();
    assert_eq!(send(&mut n, "k", 100), 0);
    assert_eq!(send(&mut n, "k", 200), 1);
    assert_eq!(poll(&mut n, &[("k", 0)]), vec![("k".to_string(), vec![(0, 100), (1, 200)])]);
    let r = (KafkaBody::CommitOffsets { msg_id: 3, offsets: vec![("k".to_string(), 1)] })
        .into_reply(&mut n, &src());
    assert_eq!(r, Some(KafkaBody::CommitOffsetsOk { msg_id: 0, in_reply_to: 3 }));
    let r = (KafkaBody::ListCommittedOffsets { msg_id: 4, keys: vec!["k".to_string()] })
        .into_reply(&mut n, &src());
    assert_eq!(
        r,
        Some(KafkaBody::ListCommittedOffsetsOk {
            in_reply_to: 4,
            msg_id: 0,
            offsets: vec![("k".to_string(), 1)]
        })
    );
}

#[test]
fn poll_returns_at_most_ten_entries() {
    let mut n = node();
    for i in 0..15usize {
        assert_eq!(send(&mut n, "k", 1000 + i), i);
    }
    let got = poll(&mut n, &[("k", 0)]);
    assert_eq!(got.len(), 1);
    let expected: Vec<(usize, usize)> = (0..10usize).map(|i| (i, 1000 + i)).collect();
    assert_eq!(got[0].1, expected);
    let tail = poll(&mut n, &[("k", 10)]);
    let expected: Vec<(usize, usize)> = (10..15usize).map(|i| (i, 1000 + i)).collect();
    assert_eq!(tail[0].1, expected);
}

#[test]
fn poll_omits_unknown_keys_and_handles_offsets_past_end() {
    let mut n = node();
    send(&mut n, "a", 1);
    send(&mut n, "b", 2);
    let got = poll(&mut n, &[("zz", 0), ("b", 0), ("a", 5)]);
    assert_eq!(got, vec![("b".to_string(), vec![(0, 2)]), ("a".to_string(), vec![])]);
}

#[test]
fn logs_are_independent_per_key() {
    let mut n = node();
    assert_eq!(send(&mut n, "a", 10), 0);
    assert_eq!(send(&mut n, "b", 20), 0);
    assert_eq!(send(&mut n, "a", 11), 1);
    assert_eq!(poll(&mut n, &[("a", 1)]), vec![("a".to_string(), vec![(1, 11)])]);
}

#[test]
fn commit_overwrites_even_backwards_and_list_filters() {
    let mut n = node();
    (KafkaBody::CommitOffsets { msg_id: 1, offsets: vec![("a".to_string(), 5), ("b".to_string(), 2)] })
        .into_reply(&mut n, &src());
    (KafkaBody::CommitOffsets { msg_id: 2, offsets: vec![("a".to_string(), 3)] })
        .into_reply(&mut n, &src());
    let r = (KafkaBody::ListCommittedOffsets {
        msg_id: 3,
        keys: vec!["a".to_string(), "c".to_string(), "b".to_string()],
    })
    .into_reply(&mut n, &src());
    assert_eq!(
        r,
        Some(KafkaBody::ListCommittedOffsetsOk {
            in_reply_to: 3,
            msg_id: 0,
            offsets: vec![("a".to_string(), 3), ("b".to_string(), 2)]
        })
    );
}

#[test]
fn poll_log_exact_batches() {
    let log: Vec<usize> = (0..25usize).map(|i| i * 2).collect();
    assert_eq!(poll_log(&log, 20), vec![(20, 40), (21, 42), (22, 44), (23, 46), (24, 48)]);
    assert_eq!(poll_log(&log, 25), vec![]);
    assert_eq!(poll_log(&log, usize::MAX), vec![]);
    assert_eq!(poll_log(&log, 3).len(), 10);
}

#[test]
fn kafka_node_counts_messages_and_ignores_ticks() {
    let mut n = node();
    let sent = n.handle_event(Event::Message(MaelstromMessage {
        src: "c9".to_string(),
        dest: "n1".to_string(),
        body: KafkaBody::Send { msg_id: 5, key: "k".to_string(), msg: 8 },
    }));
    assert_eq!(sent.len(), 1);
    assert_eq!(sent[0].dest, "c9");
    assert_eq!(sent[0].body, KafkaBody::SendOk { offset: 0, in_reply_to: 5, msg_id: 0 });
    assert_eq!(n.current_message_id, 1);
    assert!(n.handle_event(Event::PropogateWrites).is_empty());
    assert_eq!(n.current_message_id, 1);
}
