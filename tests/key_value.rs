use std::collections::HashMap;

use maelstrom_node::body::{key_value_crud as store_only_crud, Body};
use maelstrom_node::init::NodeMetadata;
use maelstrom_node::kv_store::{is_kind, key_value_crud, KVStoreBody, KVStoreNode, TxnOp};
use maelstrom_node::node::{Event, MaelstromMessage, Node, Reply};

fn meta(id: &str, ids: &[&str]) -> NodeMetadata {
    NodeMetadata {
        node_id: id.to_string(),
        node_ids: ids.iter().map(|s| s.to_string()).collect(),
    }
}

fn r(key: usize) -> TxnOp {
    ("r".to_string(), key, None)
}

fn w(key: usize, value: usize) -> TxnOp {
    ("w".to_string(), key, Some(value))
}

fn txn(n: &mut KVStoreNode, ops: Vec<TxnOp>) -> Vec<TxnOp> {
    match (KVStoreBody::Txn { msg_id: 7, txn: ops }).into_reply(n, &"c".to_string()) {
        Some(KVStoreBody::TxnOk { txn, in_reply_to, msg_id }) => {
            assert_eq!(in_reply_to, 7);
            assert_eq!(msg_id, n.current_msg_id);
            txn
        }
        other => panic!("unexpected reply {:?}", other),
    }
}

#[test]
fn key_value_crud_reads_and_writes() {
    let mut store = HashMap::new();
    let mut pending = Vec::new();
    assert_eq!(key_value_crud(r(1), &mut store, &mut pending), r(1));
    assert!(pending.is_empty());
    assert_eq!(key_value_crud(w(1, 5), &mut store, &mut pending), w(1, 5));
    assert_eq!(key_value_crud(r(1), &mut store, &mut pending), ("r".to_string(), 1, Some(5)));
    assert_eq!(store.get(&1), Some(&5));
    assert_eq!(pending, vec![(1, 5)]);
}

#[test]
fn store_only_crud_leaves_no_log() {
    let mut store = HashMap::new();
    assert_eq!(store_only_crud(w(2, 7), &mut store), w(2, 7));
    assert_eq!(store_only_crud(r(2), &mut store), ("r".to_string(), 2, Some(7)));
    assert_eq!(store_only_crud(r(3), &mut store), r(3));
    assert_eq!(store.len(), 1);
}

#[test]
fn propagated_write_refreshes_pending_value() {
    let mut n = KVStoreNode::node_init(meta("n1", &["n1", "n2"]));
    txn(&mut n, vec![w(5, 1)]);
    let incoming = KVStoreBody::WritePropogater { transaction_guid: 0, write_ops: vec![(5, 2), (6, 3)] };
    assert_eq!(incoming.into_reply(&mut n, &"n2".to_string()), None);
    assert_eq!(n.kv_store.get(&5), Some(&2));
    assert_eq!(n.kv_store.get(&6), Some(&3));
    // Key 5 was pending, so its pending value follows the store; key 6 was not.
    let sent = n.handle_event(Event::PropogateWrites);
    assert_eq!(sent.len(), 1);
    match &sent[0].body {
        KVStoreBody::WritePropogater { write_ops, .. } => {
            let last: HashMap<usize, usize> = write_ops.iter().copied().collect();
            assert_eq!(last, HashMap::from([(5, 2)]));
        }
        other => panic!("unexpected body {:?}", other),
    }
}

#[test]
fn op_kinds_are_exact() {
    assert!(is_kind(&"r".to_string(), 'r'));
    assert!(!is_kind(&"w".to_string(), 'r'));
    assert!(!is_kind(&"rr".to_string(), 'r'));
    assert!(!is_kind(&String::new(), 'r'));
}

#[test]
fn txn_applies_ops_in_order() {
    let mut n = KVStoreNode::node_init(meta("n1", &["n1", "n2"]));
    let out = txn(&mut n, vec![r(1), w(1, 10), r(1), w(1, 11), r(1), r(2)]);
    assert_eq!(
        out,
        vec![
            ("r".to_string(), 1, None),
            w(1, 10),
            ("r".to_string(), 1, Some(10)),
            w(1, 11),
            ("r".to_string(), 1, Some(11)),
            ("r".to_string(), 2, None),
        ]
    );
    assert_eq!(n.kv_store.get(&1), Some(&11));
    assert_eq!(n.unpropogated_writes, vec![(1, 10), (1, 11)]);
}

#[test]
fn tick_drains_pending_writes_to_every_peer() {
    let mut n = KVStoreNode::node_init(meta("n2", &["n1", "n2", "n3"]));
    txn(&mut n, vec![w(4, 40), r(4), w(5, 50)]);
    let sent = n.handle_event(Event::PropogateWrites);
    assert_eq!(sent.len(), 2);
    assert_eq!(sent[0].src, "n2");
    assert_eq!(sent[0].dest, "n1");
    assert_eq!(sent[1].dest, "n3");
    for m in &sent {
        assert_eq!(
            m.body,
            KVStoreBody::WritePropogater { transaction_guid: 0, write_ops: vec![(4, 40), (5, 50)] }
        );
    }
    assert!(n.unpropogated_writes.is_empty());
    assert!(n.handle_event(Event::PropogateWrites).is_empty());
}

#[test]
fn propagated_writes_last_writer_wins() {
    let ids = ["n1", "n2"];
    let mut a = KVStoreNode::node_init(meta("n1", &ids));
    let mut b = KVStoreNode::node_init(meta("n2", &ids));
    txn(&mut a, vec![w(1, 100)]);
    txn(&mut b, vec![w(1, 200)]);
    let from_a = a.handle_event(Event::PropogateWrites);
    let from_b = b.handle_event(Event::PropogateWrites);
    // b applies a's write after its own; a applies b's write after its own.
    for m in from_a {
        assert!(b.handle_event(Event::Message(m)).is_empty());
    }
    for m in from_b {
        assert!(a.handle_event(Event::Message(m)).is_empty());
    }
    assert_eq!(b.kv_store.get(&1), Some(&100));
    assert_eq!(a.kv_store.get(&1), Some(&200));
    // A later write, once propagated, wins on both.
    txn(&mut a, vec![w(1, 300)]);
    for m in a.handle_event(Event::PropogateWrites) {
        b.handle_event(Event::Message(m));
    }
    assert_eq!(a.kv_store.get(&1), Some(&300));
    assert_eq!(b.kv_store.get(&1), Some(&300));
}

#[test]
fn write_propagation_applies_batch_in_order() {
    let mut n = KVStoreNode::node_init(meta("n1", &["n1"]));
    let body = KVStoreBody::WritePropogater { transaction_guid: 3, write_ops: vec![(1, 1), (2, 2), (1, 3)] };
    assert_eq!(body.into_reply(&mut n, &"n2".to_string()), None);
    assert_eq!(n.kv_store.get(&1), Some(&3));
    assert_eq!(n.kv_store.get(&2), Some(&2));
    assert!(n.unpropogated_writes.is_empty());
}

#[test]
fn body_answers_each_request_kind() {
    let mut n = KVStoreNode::node_init(meta("n1", &["n1", "n2"]));
    n.current_msg_id = 4;
    let c = "c".to_string();
    assert_eq!(
        (Body::Init { msg_id: 1, node_id: "n1".to_string(), node_ids: vec![] }).into_reply(&mut n, &c),
        Some(Body::InitOk { in_reply_to: 1 })
    );
    assert_eq!(
        (Body::Echo { msg_id: 2, echo: "e".to_string() }).into_reply(&mut n, &c),
        Some(Body::EchoOk { msg_id: 4, in_reply_to: 2, echo: "e".to_string() })
    );
    assert_eq!(
        (Body::Generate { msg_id: 3 }).into_reply(&mut n, &c),
        Some(Body::GenerateOk { id: "n1|4".to_string(), msg_id: 4, in_reply_to: 3 })
    );
    assert_eq!(
        (Body::Txn { msg_id: 5, txn: vec![w(9, 90), r(9)] }).into_reply(&mut n, &c),
        Some(Body::TxnOk { msg_id: 4, in_reply_to: 5, txn: vec![w(9, 90), ("r".to_string(), 9, Some(90))] })
    );
    assert!(n.unpropogated_writes.is_empty());
    assert_eq!(
        (Body::WritePropogate { transaction_guid: 0, write_ops: vec![(9, 91)] }).into_reply(&mut n, &c),
        None
    );
    assert_eq!(n.kv_store.get(&9), Some(&91));
    assert_eq!((Body::AckWritePropogate {}).into_reply(&mut n, &c), None);
}

#[test]
fn body_propagates_only_writes() {
    let n = KVStoreNode::node_init(meta("n1", &["n1"]));
    let ok = Body::TxnOk { msg_id: 0, in_reply_to: 0, txn: vec![r(1), w(2, 20), w(3, 30)] };
    assert_eq!(
        ok.propogate_kv_writes(&n),
        Some(Body::WritePropogate { transaction_guid: 0, write_ops: vec![(2, 20), (3, 30)] })
    );
    let reads = Body::TxnOk { msg_id: 0, in_reply_to: 0, txn: vec![r(1)] };
    assert_eq!(reads.propogate_kv_writes(&n), None);
    assert_eq!((Body::InitOk { in_reply_to: 1 }).propogate_kv_writes(&n), None);
}

#[test]
fn message_reply_sends_reply_then_writes_to_peers() {
    let mut n = KVStoreNode::node_init(meta("n2", &["n1", "n2", "n3"]));
    let m = MaelstromMessage {
        src: "c4".to_string(),
        dest: "n2".to_string(),
        body: Body::Txn { msg_id: 8, txn: vec![w(1, 2)] },
    };
    let sent = m.reply(&mut n);
    assert_eq!(sent.len(), 3);
    assert_eq!(sent[0].src, "n2");
    assert_eq!(sent[0].dest, "c4");
    assert_eq!(sent[0].body, Body::TxnOk { msg_id: 0, in_reply_to: 8, txn: vec![w(1, 2)] });
    assert_eq!(sent[1].dest, "n1");
    assert_eq!(sent[2].dest, "n3");
    assert_eq!(sent[2].src, "n2");
    assert_eq!(sent[2].body, Body::WritePropogate { transaction_guid: 0, write_ops: vec![(1, 2)] });
    assert_eq!(n.current_msg_id, 1);

    let read_only = MaelstromMessage {
        src: "c4".to_string(),
        dest: "n2".to_string(),
        body: Body::Txn { msg_id: 9, txn: vec![r(1)] },
    };
    assert_eq!(read_only.reply(&mut n).len(), 1);
    assert_eq!(n.current_msg_id, 2);
    let no_reply = MaelstromMessage {
        src: "n1".to_string(),
        dest: "n2".to_string(),
        body: Body::WritePropogate { transaction_guid: 0, write_ops: vec![(1, 5)] },
    };
    assert!(no_reply.reply(&mut n).is_empty());
    assert_eq!(n.current_msg_id, 3);
    assert_eq!(n.kv_store.get(&1), Some(&5));
}

#[test]
fn combined_txn_keeps_pending_values_in_step_with_store() {
    let mut n = KVStoreNode::node_init(meta("n1", &["n1", "n2"]));
    txn(&mut n, vec![w(1, 10)]);
    let c = "c".to_string();
    (Body::Txn { msg_id: 2, txn: vec![w(1, 11), w(2, 20)] }).into_reply(&mut n, &c);
    (Body::WritePropogate { transaction_guid: 0, write_ops: vec![(2, 21)] }).into_reply(&mut n, &c);
    assert_eq!(n.kv_store.get(&1), Some(&11));
    assert_eq!(n.kv_store.get(&2), Some(&21));
    let pending: HashMap<usize, usize> = n.unpropogated_writes.iter().copied().collect();
    assert_eq!(pending, HashMap::from([(1, 11)]));
}
