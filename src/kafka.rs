//! Per-key append-only logs with stable offsets and committed consumer offsets.

use vstd::prelude::*;

use crate::init::NodeMetadata;
use crate::keyed::{
    find_entry, keys_distinct, lemma_table_push, lemma_table_update, table_insert, table_view,
};
use crate::node::{answered, Event, MaelstromMessage, Node, Reply};

verus! {

/// The most entries one poll returns for one key.
pub const POLL_LIMIT: usize = 10;

/// State of a log-store node.
#[derive(Clone, Debug, PartialEq, Eq)]
pub struct KafkaNode {
    pub node_id: String,
    pub current_message_id: usize,
    /// Per key, the offset a consumer last committed.
    pub committed_offsets: Vec<(String, usize)>,
    /// Per key, the log; an entry's offset is its index.
    pub messages: Vec<(String, Vec<usize>)>,
}

/// Payloads of the log-store protocol.
#[derive(Clone, Debug, PartialEq, Eq)]
pub enum KafkaBody {
    Send { msg_id: usize, key: String, msg: usize },
    SendOk { offset: usize, in_reply_to: usize, msg_id: usize },
    Poll { msg_id: usize, offsets: Vec<(String, usize)> },
    PollOk { msgs: Vec<(String, Vec<(usize, usize)>)>, in_reply_to: usize, msg_id: usize },
    CommitOffsets { msg_id: usize, offsets: Vec<(String, usize)> },
    CommitOffsetsOk { msg_id: usize, in_reply_to: usize },
    ListCommittedOffsets { msg_id: usize, keys: Vec<String> },
    ListCommittedOffsetsOk { in_reply_to: usize, msg_id: usize, offsets: Vec<(String, usize)> },
}

/// How many entries a poll from `offset` returns from a log of `len` entries.
pub open spec fn batch_len(len: nat, offset: nat) -> nat {
    if offset >= len {
        0
    } else if len - offset < POLL_LIMIT {
        (len - offset) as nat
    } else {
        POLL_LIMIT as nat
    }
}

/// The `(offset, value)` pairs a poll from `offset` returns from `log`.
pub open spec fn poll_batch(log: Seq<usize>, offset: nat) -> Seq<(usize, usize)> {
    Seq::new(batch_len(log.len(), offset), |j: int| ((offset + j) as usize, log[offset + j]))
}

/// The log of `key` in `logs`, empty where there is none.
pub open spec fn log_of(logs: Map<Seq<char>, Seq<usize>>, key: Seq<char>) -> Seq<usize> {
    if logs.contains_key(key) {
        logs[key]
    } else {
        Seq::empty()
    }
}

/// The answer to a poll of `requested`: for each requested key that has a
/// log, in the order requested, its batch.
pub open spec fn poll_result(
    logs: Map<Seq<char>, Seq<usize>>,
    requested: Seq<(String, usize)>,
) -> Seq<(Seq<char>, Seq<(usize, usize)>)>
    decreases requested.len(),
{
    if requested.len() == 0 {
        Seq::empty()
    } else {
        let rest = poll_result(logs, requested.drop_last());
        let (key, offset) = requested.last();
        if logs.contains_key(key@) {
            rest.push((key@, poll_batch(logs[key@], offset as nat)))
        } else {
            rest
        }
    }
}

/// The committed offsets after committing `offsets` in order.
pub open spec fn commit_all(
    committed: Map<Seq<char>, usize>,
    offsets: Seq<(String, usize)>,
) -> Map<Seq<char>, usize>
    decreases offsets.len(),
{
    if offsets.len() == 0 {
        committed
    } else {
        commit_all(committed, offsets.drop_last()).insert(offsets.last().0@, offsets.last().1)
    }
}

/// For each of `keys` that has a committed offset, in order, the key and that offset.
pub open spec fn listed(committed: Map<Seq<char>, usize>, keys: Seq<String>) -> Seq<
    (Seq<char>, usize),
>
    decreases keys.len(),
{
    if keys.len() == 0 {
        Seq::empty()
    } else {
        let rest = listed(committed, keys.drop_last());
        let key = keys.last()@;
        if committed.contains_key(key) {
            rest.push((key, committed[key]))
        } else {
            rest
        }
    }
}

/// The plain value of a poll answer.
pub open spec fn batches_view(msgs: Seq<(String, Vec<(usize, usize)>)>) -> Seq<
    (Seq<char>, Seq<(usize, usize)>),
> {
    Seq::new(msgs.len(), |i: int| (msgs[i].0@, msgs[i].1@))
}

/// The plain value of a list of keyed offsets.
pub open spec fn offsets_view(offsets: Seq<(String, usize)>) -> Seq<(Seq<char>, usize)> {
    Seq::new(offsets.len(), |i: int| (offsets[i].0@, offsets[i].1))
}

/// The logs that a table of vectors holds.
pub open spec fn logs_view(t: Seq<(String, Vec<usize>)>) -> Map<Seq<char>, Seq<usize>> {
    Map::new(|k: Seq<char>| table_view(t).contains_key(k), |k: Seq<char>| table_view(t)[k]@)
}

impl KafkaNode {
    pub open spec fn wf(&self) -> bool {
        &&& keys_distinct(self.messages@)
        &&& keys_distinct(self.committed_offsets@)
    }

    /// The logs, by key.
    pub open spec fn logs(&self) -> Map<Seq<char>, Seq<usize>> {
        logs_view(self.messages@)
    }

    /// The committed offsets, by key.
    pub open spec fn committed(&self) -> Map<Seq<char>, usize> {
        table_view(self.committed_offsets@)
    }

    /// Appends `msg` to the log of `key`, creating it if absent, and gives
    /// the new entry's offset.
    pub fn append(&mut self, key: String, msg: usize) -> (offset: usize)
        requires
            old(self).wf(),
        ensures
            final(self).wf(),
            final(self).logs() == old(self).logs().insert(key@, log_of(old(self).logs(), key@).push(msg)),
            offset == log_of(old(self).logs(), key@).len(),
            final(self).committed_offsets == old(self).committed_offsets,
            final(self).node_id == old(self).node_id,
            final(self).current_message_id == old(self).current_message_id,
    {
        let ghost t0 = self.messages@;
        match find_entry(&self.messages, &key) {
            Some(i) => {
                self.messages[i].1.push(msg);
                proof {
                    let q = self.messages@[i as int];
                    assert(self.messages@ == t0.update(i as int, q));
                    lemma_table_update(t0, i as int, q);
                    assert(logs_view(self.messages@) =~= logs_view(t0).insert(key@, log_of(logs_view(t0), key@).push(msg)));
                }
                self.messages[i].1.len() - 1
            },
            None => {
                let mut log: Vec<usize> = Vec::new();
                log.push(msg);
                let ghost q = (key, log);
                proof {
                    lemma_table_push(t0, q);
                }
                self.messages.push((key, log));
                proof {
                    assert(self.messages@ == t0.push(q));
                    assert(log@ =~= Seq::<usize>::empty().push(msg));
                    assert(logs_view(self.messages@) =~= logs_view(t0).insert(key@, log_of(logs_view(t0), key@).push(msg)));
                }
                0
            },
        }
    }

    /// The entries of the logs of the requested keys, from the requested
    /// offsets, at most `POLL_LIMIT` per key; keys without a log are left out.
    pub fn poll(&self, offsets: &Vec<(String, usize)>) -> (r: Vec<(String, Vec<(usize, usize)>)>)
        requires
            self.wf(),
        ensures
            batches_view(r@) == poll_result(self.logs(), offsets@),
    {
        let mut r: Vec<(String, Vec<(usize, usize)>)> = Vec::new();
        let mut i: usize = 0;
        while i < offsets.len()
            invariant
                self.wf(),
                i <= offsets@.len(),
                batches_view(r@) == poll_result(self.logs(), offsets@.take(i as int)),
            decreases offsets@.len() - i,
        {
            let key = &offsets[i].0;
            let offset = offsets[i].1;
            assert(offsets@.take(i + 1).drop_last() =~= offsets@.take(i as int));
            match find_entry(&self.messages, key) {
                Some(j) => {
                    let batch = poll_log(&self.messages[j].1, offset);
                    let ghost r0 = r@;
                    r.push((key.clone(), batch));
                    assert(batches_view(r@) =~= batches_view(r0).push((key@, batch@)));
                },
                None => {},
            }
            i = i + 1;
        }
        assert(offsets@.take(offsets@.len() as int) =~= offsets@);
        r
    }

    /// Records each of `offsets` as the committed offset of its key, in order.
    pub fn commit(&mut self, offsets: &Vec<(String, usize)>)
        requires
            old(self).wf(),
        ensures
            final(self).wf(),
            final(self).committed() == commit_all(old(self).committed(), offsets@),
            final(self).messages == old(self).messages,
            final(self).node_id == old(self).node_id,
            final(self).current_message_id == old(self).current_message_id,
    {
        let ghost start = self.committed();
        let mut i: usize = 0;
        while i < offsets.len()
            invariant
                self.wf(),
                i <= offsets@.len(),
                self.committed() == commit_all(start, offsets@.take(i as int)),
                self.messages == old(self).messages,
                self.node_id == old(self).node_id,
                self.current_message_id == old(self).current_message_id,
            decreases offsets@.len() - i,
        {
            assert(offsets@.take(i + 1).drop_last() =~= offsets@.take(i as int));
            table_insert(&mut self.committed_offsets, offsets[i].0.clone(), offsets[i].1);
            i = i + 1;
        }
        assert(offsets@.take(offsets@.len() as int) =~= offsets@);
    }

    /// The committed offsets of those of `keys` that have one, in order.
    pub fn list_committed(&self, keys: &Vec<String>) -> (r: Vec<(String, usize)>)
        requires
            self.wf(),
        ensures
            offsets_view(r@) == listed(self.committed(), keys@),
    {
        let mut r: Vec<(String, usize)> = Vec::new();
        let mut i: usize = 0;
        while i < keys.len()
            invariant
                self.wf(),
                i <= keys@.len(),
                offsets_view(r@) == listed(self.committed(), keys@.take(i as int)),
            decreases keys@.len() - i,
        {
            assert(keys@.take(i + 1).drop_last() =~= keys@.take(i as int));
            match find_entry(&self.committed_offsets, &keys[i]) {
                Some(j) => {
                    let ghost r0 = r@;
                    r.push((keys[i].clone(), self.committed_offsets[j].1));
                    assert(offsets_view(r@) =~= offsets_view(r0).push(
                        (keys@[i as int]@, self.committed()[keys@[i as int]@]),
                    ));
                },
                None => {},
            }
            i = i + 1;
        }
        assert(keys@.take(keys@.len() as int) =~= keys@);
        r
    }
}

/// Up to `POLL_LIMIT` entries of `log` from `offset` on, with their offsets.
pub fn poll_log(log: &Vec<usize>, offset: usize) -> (r: Vec<(usize, usize)>)
    ensures
        r@ == poll_batch(log@, offset as nat),
{
    let mut r: Vec<(usize, usize)> = Vec::new();
    let mut at: usize = offset;
    while at < log.len() && r.len() < POLL_LIMIT
        invariant
            at == offset + r@.len(),
            r@.len() <= POLL_LIMIT,
            r@.len() > 0 ==> at <= log@.len(),
            forall|j: int| 0 <= j < r@.len() ==> #[trigger] r@[j] == ((offset + j) as usize, log@[offset + j]),
        decreases POLL_LIMIT - r@.len(),
    {
        r.push((at, log[at]));
        at = at + 1;
    }
    assert(r@ =~= poll_batch(log@, offset as nat));
    r
}

impl Reply<KafkaNode> for KafkaBody {
    open spec fn reply_requires(self, state: KafkaNode) -> bool {
        state.wf()
    }

    open spec fn reply_ensures(
        self,
        pre: KafkaNode,
        post: KafkaNode,
        src: Seq<char>,
        reply: Option<KafkaBody>,
    ) -> bool {
        &&& post.wf()
        &&& post.node_id == pre.node_id
        &&& post.current_message_id == pre.current_message_id
        &&& match self {
            KafkaBody::Send { msg_id, key, msg } => {
                &&& post.logs() == pre.logs().insert(key@, log_of(pre.logs(), key@).push(msg))
                &&& post.committed_offsets == pre.committed_offsets
                &&& reply == Some(
                    KafkaBody::SendOk {
                        offset: log_of(pre.logs(), key@).len() as usize,
                        in_reply_to: msg_id,
                        msg_id: pre.current_message_id,
                    },
                )
            },
            KafkaBody::Poll { msg_id, offsets } => {
                &&& post == pre
                &&& match reply {
                    Some(KafkaBody::PollOk { msgs, in_reply_to, msg_id: m }) => {
                        &&& batches_view(msgs@) == poll_result(pre.logs(), offsets@)
                        &&& in_reply_to == msg_id
                        &&& m == pre.current_message_id
                    },
                    _ => false,
                }
            },
            KafkaBody::CommitOffsets { msg_id, offsets } => {
                &&& post.messages == pre.messages
                &&& post.committed() == commit_all(pre.committed(), offsets@)
                &&& reply == Some(
                    KafkaBody::CommitOffsetsOk { msg_id: pre.current_message_id, in_reply_to: msg_id },
                )
            },
            KafkaBody::ListCommittedOffsets { msg_id, keys } => {
                &&& post == pre
                &&& match reply {
                    Some(KafkaBody::ListCommittedOffsetsOk { in_reply_to, msg_id: m, offsets }) => {
                        &&& offsets_view(offsets@) == listed(pre.committed(), keys@)
                        &&& in_reply_to == msg_id
                        &&& m == pre.current_message_id
                    },
                    _ => false,
                }
            },
            _ => post == pre && reply is None,
        }
    }

    fn into_reply(self, node_state: &mut KafkaNode, src: &String) -> (r: Option<Self>) {
        match self {
            KafkaBody::Send { key, msg, msg_id } => {
                let offset = node_state.append(key, msg);
                Some(
                    KafkaBody::SendOk {
                        offset,
                        in_reply_to: msg_id,
                        msg_id: node_state.current_message_id,
                    },
                )
            },
            KafkaBody::Poll { msg_id, offsets } => {
                let msgs = node_state.poll(&offsets);
                Some(
                    KafkaBody::PollOk {
                        msgs,
                        in_reply_to: msg_id,
                        msg_id: node_state.current_message_id,
                    },
                )
            },
            KafkaBody::CommitOffsets { msg_id, offsets } => {
                node_state.commit(&offsets);
                Some(
                    KafkaBody::CommitOffsetsOk {
                        msg_id: node_state.current_message_id,
                        in_reply_to: msg_id,
                    },
                )
            },
            KafkaBody::ListCommittedOffsets { msg_id, keys } => {
                let offsets = node_state.list_committed(&keys);
                Some(
                    KafkaBody::ListCommittedOffsetsOk {
                        in_reply_to: msg_id,
                        msg_id: node_state.current_message_id,
                        offsets,
                    },
                )
            },
            _ => None,
        }
    }
}

impl Node<KafkaBody> for KafkaNode {
    open spec fn wf(&self) -> bool {
        KafkaNode::wf(self)
    }

    open spec fn initial(node_metadata: NodeMetadata, state: Self) -> bool {
        &&& state.node_id == node_metadata.node_id
        &&& state.current_message_id == 0
        &&& state.committed_offsets@.len() == 0
        &&& state.messages@.len() == 0
    }

    open spec fn event_requires(&self, event: Event<KafkaBody>) -> bool {
        event is Message ==> self.current_message_id < usize::MAX
    }

    open spec fn event_ensures(
        &self,
        event: Event<KafkaBody>,
        post: &Self,
        sent: Seq<MaelstromMessage<KafkaBody>>,
    ) -> bool {
        match event {
            Event::Message(m) => {
                &&& post.current_message_id == self.current_message_id + 1
                &&& answered(
                    m,
                    *self,
                    (KafkaNode { current_message_id: self.current_message_id, ..*post }),
                    sent,
                )
            },
            Event::PropogateWrites => *post == *self && sent.len() == 0,
        }
    }

    fn node_init(node_metadata: NodeMetadata) -> (r: Self) {
        KafkaNode {
            node_id: node_metadata.node_id,
            current_message_id: 0,
            committed_offsets: Vec::new(),
            messages: Vec::new(),
        }
    }

    fn handle_event(&mut self, event: Event<KafkaBody>) -> (sent: Vec<MaelstromMessage<KafkaBody>>) {
        match event {
            Event::Message(message) => {
                let sent = message.reply_envelopes(self);
                self.current_message_id = self.current_message_id + 1;
                sent
            },
            Event::PropogateWrites => Vec::new(),
        }
    }
}

} // verus!
