use maelstrom_node::echo::{EchoBody, EchoNode};
use maelstrom_node::generate_id::{generate_id, GenerateGuidBody, GenerateGuidNode};
use maelstrom_node::init::{InitBody, MaelstromInit, NodeMetadata};
use maelstrom_node::node::{other_node_ids, Event, MaelstromMessage, Node, Reply};

fn meta(id: &str, ids: &[&str]) -> NodeMetadata {
    NodeMetadata {
        node_id: id.to_string(),
        node_ids: ids.iter().map(|s| s.to_string()).collect(),
    }
}

#[test]
fn init_reply_acknowledges_msg_id() {
    let body = InitBody::Init { msg_id: 7, node_id: "n1".to_string(), node_ids: vec![] };
    assert_eq!(body.into_reply(), InitBody::InitOk { in_reply_to: 7 });
}

#[test]
fn init_node_swaps_addresses_and_yields_identity() {
    let msg = MaelstromInit {
        src: "c0".to_string(),
        dest: "n2".to_string(),
        body: InitBody::Init {
            msg_id: 1,
            node_id: "n2".to_string(),
            node_ids: vec!["n1".to_string(), "n2".to_string(), "n3".to_string()],
        },
    };
    let (reply, identity) = msg.init_node();
    assert_eq!(reply.src, "n2");
    assert_eq!(reply.dest, "c0");
    assert_eq!(reply.body, InitBody::InitOk { in_reply_to: 1 });
    assert_eq!(identity, meta("n2", &["n1", "n2", "n3"]));
}

#[test]
fn other_node_ids_excludes_own_id_in_order() {
    let m = meta("n2", &["n1", "n2", "n3", "n4"]);
    assert_eq!(other_node_ids(&m), vec!["n1".to_string(), "n3".to_string(), "n4".to_string()]);
    assert!(other_node_ids(&meta("n1", &["n1"])).is_empty());
}

#[test]
fn echo_returns_text_with_node_msg_id() {
    let mut node = EchoNode { current_msg_id: 5 };
    let r = EchoBody::Echo { msg_id: 3, echo: "hello".to_string() }
        .into_reply(&mut node, &"c1".to_string());
    assert_eq!(
        r,
        Some(EchoBody::EchoOk { msg_id: 5, in_reply_to: 3, echo: "hello".to_string() })
    );
    let none = EchoBody::EchoOk { msg_id: 1, in_reply_to: 1, echo: String::new() }
        .into_reply(&mut node, &"c1".to_string());
    assert_eq!(none, None);
}

#[test]
fn echo_node_event_replies_to_sender_and_counts() {
    let mut node = EchoNode::node_init(meta("n1", &["n1"]));
    let sent = node.handle_event(Event::Message(MaelstromMessage {
        src: "c1".to_string(),
        dest: "n1".to_string(),
        body: EchoBody::Echo { msg_id: 9, echo: "x".to_string() },
    }));
    assert_eq!(sent.len(), 1);
    assert_eq!(sent[0].src, "n1");
    assert_eq!(sent[0].dest, "c1");
    assert_eq!(sent[0].body, EchoBody::EchoOk { msg_id: 0, in_reply_to: 9, echo: "x".to_string() });
    assert_eq!(node.current_msg_id, 1);
    assert!(node.handle_event(Event::PropogateWrites).is_empty());
    assert_eq!(node.current_msg_id, 1);
}

#[test]
fn generate_id_formats_node_and_counter() {
    assert_eq!(generate_id(&"n1".to_string(), 0), "n1|0");
    assert_eq!(generate_id(&"n1".to_string(), 42), "n1|42");
    assert_eq!(generate_id(&"n3".to_string(), 1234567890), "n3|1234567890");
    assert_eq!(generate_id(&"n1".to_string(), usize::MAX), format!("n1|{}", usize::MAX));
}

#[test]
fn generated_ids_differ_for_distinct_pairs() {
    let pairs = [("n1", 1usize), ("n1", 11), ("n11", 1), ("n1|1", 1), ("n1", 0), ("n2", 1)];
    let ids: Vec<String> = pairs.iter().map(|(n, c)| generate_id(&n.to_string(), *c)).collect();
    for i in 0..ids.len() {
        for j in 0..ids.len() {
            if i != j {
                assert_ne!(ids[i], ids[j]);
            }
        }
    }
}

#[test]
fn generate_node_hands_out_fresh_ids() {
    let mut node = GenerateGuidNode::node_init(meta("n4", &["n4"]));
    let mut ids = Vec::new();
    for k in 0..3usize {
        let sent = node.handle_event(Event::Message(MaelstromMessage {
            src: "c1".to_string(),
            dest: "n4".to_string(),
            body: GenerateGuidBody::Generate { msg_id: 100 + k },
        }));
        assert_eq!(sent.len(), 1);
        match &sent[0].body {
            GenerateGuidBody::GenerateOk { id, msg_id, in_reply_to } => {
                assert_eq!(*msg_id, k);
                assert_eq!(*in_reply_to, 100 + k);
                ids.push(id.clone());
            }
            other => panic!("unexpected reply {:?}", other),
        }
    }
    assert_eq!(ids, vec!["n4|0".to_string(), "n4|1".to_string(), "n4|2".to_string()]);
}
