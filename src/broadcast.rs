//! Gossip broadcast: every node learns every broadcast value.
//!
//! Each node keeps the set of values it has seen and, per peer, the values
//! it knows that peer has seen. On each tick it sends every neighbor the
//! values not yet confirmed for it, and a neighbor's acknowledgement confirms
//! them. Values unconfirmed are sent again on the next tick.

use vstd::prelude::*;

use crate::init::NodeMetadata;
use crate::intset::{copy_ints, set_difference, set_extend, set_insert};
use crate::keyed::{
    find_entry, keys_distinct, lemma_table_index, lemma_table_push, lemma_table_update,
    table_view,
};
use crate::node::{answered, other_node_ids, peers_of, Event, MaelstromMessage, Node, Reply};

verus! {

broadcast use vstd::seq_lib::group_seq_properties;

/// State of a broadcast node.
#[derive(Clone, Debug, PartialEq, Eq)]
pub struct BroadcastNode {
    pub node_id: String,
    /// The peers this node gossips to.
    pub neighbors: Vec<String>,
    pub other_node_ids: Vec<String>,
    pub current_msg_id: usize,
    /// Every value this node has seen, each once.
    pub messages: Vec<usize>,
    /// Per peer, the values known to have reached it, each once.
    pub confirmed_seen: Vec<(String, Vec<usize>)>,
}

/// Payloads of the broadcast protocol.
#[derive(Clone, Debug, PartialEq, Eq)]
pub enum BroadcastBody {
    Broadcast { msg_id: usize, message: usize },
    BroadcastOk { msg_id: usize, in_reply_to: usize },
    Read { msg_id: usize },
    ReadOk { msg_id: usize, in_reply_to: usize, messages: Vec<usize> },
    Topology { msg_id: usize, topology: Vec<(String, Vec<String>)> },
    TopologyOk { in_reply_to: usize, msg_id: usize },
    Gossip { msg_id: usize, message: Vec<usize> },
    GossipOk { in_reply_to: usize, msg_id: usize, ack_message: Vec<usize> },
}

/// The sets that a table of vectors holds.
pub open spec fn sets_view(t: Seq<(String, Vec<usize>)>) -> Map<Seq<char>, Set<usize>> {
    Map::new(
        |k: Seq<char>| table_view(t).contains_key(k),
        |k: Seq<char>| table_view(t)[k]@.to_set(),
    )
}

/// The values of `m` at `k`, empty where there are none.
pub open spec fn set_of(m: Map<Seq<char>, Set<usize>>, k: Seq<char>) -> Set<usize> {
    if m.contains_key(k) {
        m[k]
    } else {
        Set::empty()
    }
}

impl BroadcastNode {
    pub open spec fn wf(&self) -> bool {
        &&& self.messages@.no_duplicates()
        &&& keys_distinct(self.confirmed_seen@)
        &&& forall|i: int|
            0 <= i < self.confirmed_seen@.len() ==> (#[trigger] self.confirmed_seen@[i]).1@.no_duplicates()
    }

    /// The values seen.
    pub open spec fn seen(&self) -> Set<usize> {
        self.messages@.to_set()
    }

    /// Per peer, the values known to have reached it.
    pub open spec fn confirmed(&self) -> Map<Seq<char>, Set<usize>> {
        sets_view(self.confirmed_seen@)
    }

    /// The values a tick sends to `peer`: those seen and not confirmed for it.
    pub open spec fn pending_for(&self, peer: Seq<char>) -> Set<usize> {
        self.seen().difference(set_of(self.confirmed(), peer))
    }

    /// The neighbors among `nbs` that a tick sends gossip to, in order.
    pub open spec fn gossip_targets(&self, nbs: Seq<String>) -> Seq<String>
        decreases nbs.len(),
    {
        if nbs.len() == 0 {
            Seq::empty()
        } else if self.pending_for(nbs.last()@).is_empty() {
            self.gossip_targets(nbs.drop_last())
        } else {
            self.gossip_targets(nbs.drop_last()).push(nbs.last())
        }
    }

    /// `sent` is the gossip of a tick to `targets`, numbered from `first_id`.
    pub open spec fn gossip_sent(
        &self,
        targets: Seq<String>,
        first_id: nat,
        sent: Seq<MaelstromMessage<BroadcastBody>>,
    ) -> bool {
        &&& sent.len() == targets.len()
        &&& forall|j: int|
            0 <= j < sent.len() ==> {
                &&& (#[trigger] sent[j]).src == self.node_id
                &&& sent[j].dest == targets[j]
                &&& match sent[j].body {
                    BroadcastBody::Gossip { msg_id, message } => {
                        &&& msg_id == first_id + j
                        &&& message@.no_duplicates()
                        &&& message@.to_set() == self.pending_for(targets[j]@)
                    },
                    _ => false,
                }
            }
    }

    /// Records that `peer` has seen `values`.
    pub fn confirm(&mut self, peer: &String, values: &Vec<usize>)
        requires
            old(self).wf(),
        ensures
            final(self).wf(),
            final(self).confirmed() == old(self).confirmed().insert(
                peer@,
                set_of(old(self).confirmed(), peer@) + values@.to_set(),
            ),
            final(self).messages == old(self).messages,
            final(self).neighbors == old(self).neighbors,
            final(self).node_id == old(self).node_id,
            final(self).other_node_ids == old(self).other_node_ids,
            final(self).current_msg_id == old(self).current_msg_id,
    {
        let ghost t0 = self.confirmed_seen@;
        match find_entry(&self.confirmed_seen, peer) {
            Some(i) => {
                proof {
                    lemma_table_index(t0, i as int);
                }
                set_extend(&mut self.confirmed_seen[i].1, values);
                proof {
                    let q = self.confirmed_seen@[i as int];
                    assert(self.confirmed_seen@ == t0.update(i as int, q));
                    lemma_table_update(t0, i as int, q);
                    assert(sets_view(self.confirmed_seen@) =~= sets_view(t0).insert(
                        peer@,
                        set_of(sets_view(t0), peer@) + values@.to_set(),
                    ));
                }
            },
            None => {
                let mut known: Vec<usize> = Vec::new();
                assert(known@.to_set() =~= Set::<usize>::empty());
                set_extend(&mut known, values);
                assert(known@.to_set() =~= values@.to_set());
                let p = peer.clone();
                proof {
                    lemma_table_push(t0, (p, known));
                }
                self.confirmed_seen.push((p, known));
                proof {
                    assert(self.confirmed_seen@ == t0.push((p, known)));
                    assert(p@ == peer@);
                    assert(set_of(sets_view(t0), peer@) =~= Set::<usize>::empty());
                    assert(sets_view(self.confirmed_seen@) =~= sets_view(t0).insert(
                        peer@,
                        set_of(sets_view(t0), peer@) + values@.to_set(),
                    ));
                }
            },
        }
    }

    /// The values to send `peer` on a tick.
    pub fn unconfirmed(&self, peer: &String) -> (r: Vec<usize>)
        requires
            self.wf(),
        ensures
            r@.no_duplicates(),
            r@.to_set() == self.pending_for(peer@),
    {
        match find_entry(&self.confirmed_seen, peer) {
            Some(i) => set_difference(&self.messages, &self.confirmed_seen[i].1),
            None => {
                let r = copy_ints(&self.messages);
                assert(r@.to_set() =~= self.pending_for(peer@));
                r
            },
        }
    }

    /// One round of anti-entropy: to each neighbor with values not confirmed
    /// for it, in order, a gossip message carrying those values.
    pub fn gossip_round(&mut self) -> (sent: Vec<MaelstromMessage<BroadcastBody>>)
        requires
            old(self).wf(),
            old(self).current_msg_id + old(self).neighbors@.len() <= usize::MAX,
        ensures
            *final(self) == (BroadcastNode {
                current_msg_id: (old(self).current_msg_id + sent@.len()) as usize,
                ..*old(self)
            }),
            old(self).gossip_sent(
                old(self).gossip_targets(old(self).neighbors@),
                old(self).current_msg_id as nat,
                sent@,
            ),
    {
        let ghost pre = *self;
        let mut sent: Vec<MaelstromMessage<BroadcastBody>> = Vec::new();
        let mut i: usize = 0;
        while i < self.neighbors.len()
            invariant
                i <= self.neighbors@.len(),
                *self == (BroadcastNode {
                    current_msg_id: (pre.current_msg_id + sent@.len()) as usize,
                    ..pre
                }),
                pre.wf(),
                pre.current_msg_id + pre.neighbors@.len() <= usize::MAX,
                pre.gossip_sent(
                    pre.gossip_targets(pre.neighbors@.take(i as int)),
                    pre.current_msg_id as nat,
                    sent@,
                ),
                sent@.len() <= i,
            decreases self.neighbors@.len() - i,
        {
            let ghost nbs = pre.neighbors@;
            assert(nbs.take(i + 1).drop_last() =~= nbs.take(i as int));
            let neighbor = &self.neighbors[i];
            let message = self.unconfirmed(neighbor);
            if message.len() > 0 {
                assert(message@.to_set().contains(message@[0]));
                let m = MaelstromMessage {
                    src: self.node_id.clone(),
                    dest: neighbor.clone(),
                    body: BroadcastBody::Gossip { msg_id: self.current_msg_id, message },
                };
                let ghost s0 = sent@;
                sent.push(m);
                self.current_msg_id = self.current_msg_id + 1;
                assert(pre.gossip_targets(nbs.take(i + 1)) == pre.gossip_targets(nbs.take(i as int)).push(nbs[i as int]));
                assert(sent@ == s0.push(m));
            } else {
                assert(message@.to_set() =~= Set::<usize>::empty());
            }
            i = i + 1;
        }
        assert(pre.neighbors@.take(pre.neighbors@.len() as int) =~= pre.neighbors@);
        sent
    }
}

/// The value of `topology` for `node_id` adopted as the neighbors.
pub open spec fn neighbors_in(topology: Seq<(String, Vec<String>)>, node_id: Seq<char>) -> Vec<String> {
    table_view(topology)[node_id]
}

/// Delivering the same gossip message a second time changes neither the
/// values seen nor the values confirmed for its sender.
pub proof fn lemma_gossip_idempotent(
    gossip: BroadcastBody,
    first: BroadcastNode,
    once: BroadcastNode,
    twice: BroadcastNode,
    src: Seq<char>,
    reply_once: Option<BroadcastBody>,
    reply_twice: Option<BroadcastBody>,
)
    requires
        gossip is Gossip,
        BroadcastBody::reply_ensures(gossip, first, once, src, reply_once),
        BroadcastBody::reply_ensures(gossip, once, twice, src, reply_twice),
    ensures
        twice.seen() == once.seen(),
        twice.confirmed() == once.confirmed(),
{
    let values = gossip->Gossip_message@.to_set();
    assert(twice.seen() =~= once.seen());
    assert(set_of(once.confirmed(), src) == set_of(first.confirmed(), src) + values);
    assert(set_of(once.confirmed(), src) + values =~= set_of(once.confirmed(), src));
    assert(twice.confirmed() =~= once.confirmed());
}

/// The values a `Broadcast` or `Gossip` message adds to what a node has seen.
pub open spec fn carried(b: BroadcastBody) -> Set<usize> {
    match b {
        BroadcastBody::Broadcast { message, .. } => set![message],
        BroadcastBody::Gossip { message, .. } => message@.to_set(),
        _ => Set::empty(),
    }
}

proof fn lemma_seen_grows_by_carried(
    b: BroadcastBody,
    pre: BroadcastNode,
    post: BroadcastNode,
    src: Seq<char>,
    reply: Option<BroadcastBody>,
)
    requires
        b is Broadcast || b is Gossip,
        BroadcastBody::reply_ensures(b, pre, post, src, reply),
    ensures
        post.seen() == pre.seen() + carried(b),
{
    assert(post.seen() =~= pre.seen() + carried(b));
}

/// What a node has seen does not depend on the order in which two
/// `Broadcast` or `Gossip` messages reach it: either way it is what it had
/// seen plus the values of both.
pub proof fn lemma_seen_order_independent(
    b1: BroadcastBody,
    b2: BroadcastBody,
    start: BroadcastNode,
    one_then: BroadcastNode,
    one_two: BroadcastNode,
    two_then: BroadcastNode,
    two_one: BroadcastNode,
    src1: Seq<char>,
    src2: Seq<char>,
    r1: Option<BroadcastBody>,
    r2: Option<BroadcastBody>,
    r3: Option<BroadcastBody>,
    r4: Option<BroadcastBody>,
)
    requires
        b1 is Broadcast || b1 is Gossip,
        b2 is Broadcast || b2 is Gossip,
        BroadcastBody::reply_ensures(b1, start, one_then, src1, r1),
        BroadcastBody::reply_ensures(b2, one_then, one_two, src2, r2),
        BroadcastBody::reply_ensures(b2, start, two_then, src2, r3),
        BroadcastBody::reply_ensures(b1, two_then, two_one, src1, r4),
    ensures
        one_two.seen() == two_one.seen(),
        one_two.seen() == start.seen() + carried(b1) + carried(b2),
{
    lemma_seen_grows_by_carried(b1, start, one_then, src1, r1);
    lemma_seen_grows_by_carried(b2, one_then, one_two, src2, r2);
    lemma_seen_grows_by_carried(b2, start, two_then, src2, r3);
    lemma_seen_grows_by_carried(b1, two_then, two_one, src1, r4);
    assert(one_two.seen() =~= two_one.seen());
}

proof fn lemma_targets_cover(node: BroadcastNode, nbs: Seq<String>, i: int)
    requires
        0 <= i < nbs.len(),
        !node.pending_for(nbs[i]@).is_empty(),
    ensures
        exists|j: int|
            0 <= j < node.gossip_targets(nbs).len() && #[trigger] node.gossip_targets(nbs)[j]
                == nbs[i],
    decreases nbs.len(),
{
    let t = node.gossip_targets(nbs);
    if i == nbs.len() - 1 {
        assert(t[t.len() - 1] == nbs[i]);
    } else {
        lemma_targets_cover(node, nbs.drop_last(), i);
        let d = node.gossip_targets(nbs.drop_last());
        let j = choose|j: int| 0 <= j < d.len() && #[trigger] d[j] == nbs.drop_last()[i];
        assert(t[j] == nbs[i]);
    }
}

/// On a tick, every neighbor that has not been confirmed every value seen
/// is sent a gossip message.
pub proof fn lemma_gossip_reaches_neighbors(
    node: BroadcastNode,
    post: BroadcastNode,
    sent: Seq<MaelstromMessage<BroadcastBody>>,
    i: int,
)
    requires
        node.wf(),
        node.event_ensures(Event::PropogateWrites, &post, sent),
        0 <= i < node.neighbors@.len(),
        !node.seen().subset_of(set_of(node.confirmed(), node.neighbors@[i]@)),
    ensures
        exists|j: int| 0 <= j < sent.len() && (#[trigger] sent[j]).dest == node.neighbors@[i],
{
    let nb = node.neighbors@[i];
    let conf = set_of(node.confirmed(), nb@);
    let x = choose|x: usize| node.seen().contains(x) && !conf.contains(x);
    assert(node.pending_for(nb@).contains(x));
    lemma_targets_cover(node, node.neighbors@, i);
    let j = choose|j: int|
        0 <= j < node.gossip_targets(node.neighbors@).len() && #[trigger] node.gossip_targets(
            node.neighbors@,
        )[j] == nb;
    assert(sent[j].dest == nb);
}

/// One round of anti-entropy: a neighbor that has seen every value its
/// sender holds confirmed for it, and then applies the gossip sent to it on a
/// tick, has seen every value the sender had.
pub proof fn lemma_gossip_delivers(
    sender: BroadcastNode,
    sender_post: BroadcastNode,
    sent: Seq<MaelstromMessage<BroadcastBody>>,
    j: int,
    receiver: BroadcastNode,
    receiver_post: BroadcastNode,
    reply: Option<BroadcastBody>,
)
    requires
        sender.wf(),
        sender.event_ensures(Event::PropogateWrites, &sender_post, sent),
        0 <= j < sent.len(),
        set_of(sender.confirmed(), sent[j].dest@).subset_of(receiver.seen()),
        BroadcastBody::reply_ensures(sent[j].body, receiver, receiver_post, sent[j].src@, reply),
    ensures
        sender.seen().subset_of(receiver_post.seen()),
{
    let targets = sender.gossip_targets(sender.neighbors@);
    assert(sent[j].dest == targets[j]);
    let values = sent[j].body->Gossip_message@.to_set();
    assert(values == sender.pending_for(targets[j]@));
    assert(receiver_post.seen() == receiver.seen() + values);
}

impl Reply<BroadcastNode> for BroadcastBody {
    open spec fn reply_requires(self, state: BroadcastNode) -> bool {
        &&& state.wf()
        &&& match self {
            BroadcastBody::Topology { topology, .. } => {
                &&& keys_distinct(topology@)
                &&& table_view(topology@).contains_key(state.node_id@)
            },
            _ => true,
        }
    }

    open spec fn reply_ensures(
        self,
        pre: BroadcastNode,
        post: BroadcastNode,
        src: Seq<char>,
        reply: Option<BroadcastBody>,
    ) -> bool {
        &&& post.wf()
        &&& post.node_id == pre.node_id
        &&& post.other_node_ids == pre.other_node_ids
        &&& post.current_msg_id == pre.current_msg_id
        &&& match self {
            BroadcastBody::Topology { msg_id, topology } => {
                &&& post == (BroadcastNode {
                    neighbors: neighbors_in(topology@, pre.node_id@),
                    ..pre
                })
                &&& reply == Some(
                    BroadcastBody::TopologyOk { in_reply_to: msg_id, msg_id: pre.current_msg_id },
                )
            },
            BroadcastBody::Broadcast { msg_id, message } => {
                &&& post.seen() == pre.seen().insert(message)
                &&& post.confirmed_seen == pre.confirmed_seen
                &&& post.neighbors == pre.neighbors
                &&& reply == Some(
                    BroadcastBody::BroadcastOk { msg_id: pre.current_msg_id, in_reply_to: msg_id },
                )
            },
            BroadcastBody::Read { msg_id } => {
                &&& post == pre
                &&& match reply {
                    Some(BroadcastBody::ReadOk { msg_id: m, in_reply_to, messages }) => {
                        &&& messages@.no_duplicates()
                        &&& messages@.to_set() == pre.seen()
                        &&& m == pre.current_msg_id
                        &&& in_reply_to == msg_id
                    },
                    _ => false,
                }
            },
            BroadcastBody::Gossip { msg_id, message } => {
                &&& post.seen() == pre.seen() + message@.to_set()
                &&& post.confirmed() == pre.confirmed().insert(
                    src,
                    set_of(pre.confirmed(), src) + message@.to_set(),
                )
                &&& post.neighbors == pre.neighbors
                &&& reply == Some(
                    BroadcastBody::GossipOk {
                        in_reply_to: msg_id,
                        msg_id: pre.current_msg_id,
                        ack_message: message,
                    },
                )
            },
            BroadcastBody::GossipOk { ack_message, .. } => {
                &&& post.messages == pre.messages
                &&& post.confirmed() == pre.confirmed().insert(
                    src,
                    set_of(pre.confirmed(), src) + ack_message@.to_set(),
                )
                &&& post.neighbors == pre.neighbors
                &&& reply is None
            },
            _ => post == pre && reply is None,
        }
    }

    fn into_reply(self, node_state: &mut BroadcastNode, src: &String) -> (r: Option<Self>) {
        match self {
            BroadcastBody::Topology { msg_id, mut topology } => {
                match find_entry(&topology, &node_state.node_id) {
                    Some(i) => {
                        let (_, neighbors) = topology.swap_remove(i);
                        node_state.neighbors = neighbors;
                        Some(
                            BroadcastBody::TopologyOk {
                                in_reply_to: msg_id,
                                msg_id: node_state.current_msg_id,
                            },
                        )
                    },
                    None => {
                        proof {
                            assert(false);
                        }
                        None
                    },
                }
            },
            BroadcastBody::Broadcast { msg_id, message } => {
                set_insert(&mut node_state.messages, message);
                Some(
                    BroadcastBody::BroadcastOk {
                        msg_id: node_state.current_msg_id,
                        in_reply_to: msg_id,
                    },
                )
            },
            BroadcastBody::Read { msg_id } => {
                let messages = copy_ints(&node_state.messages);
                Some(
                    BroadcastBody::ReadOk {
                        msg_id: node_state.current_msg_id,
                        in_reply_to: msg_id,
                        messages,
                    },
                )
            },
            BroadcastBody::Gossip { msg_id, message } => {
                set_extend(&mut node_state.messages, &message);
                node_state.confirm(src, &message);
                Some(
                    BroadcastBody::GossipOk {
                        in_reply_to: msg_id,
                        msg_id: node_state.current_msg_id,
                        ack_message: message,
                    },
                )
            },
            BroadcastBody::GossipOk { ack_message, .. } => {
                node_state.confirm(src, &ack_message);
                None
            },
            _ => None,
        }
    }
}

impl Node<BroadcastBody> for BroadcastNode {
    open spec fn wf(&self) -> bool {
        BroadcastNode::wf(self)
    }

    open spec fn initial(node_metadata: NodeMetadata, state: Self) -> bool {
        &&& state.node_id == node_metadata.node_id
        &&& state.other_node_ids@ == peers_of(node_metadata.node_ids@, node_metadata.node_id@)
        &&& state.neighbors@.len() == 0
        &&& state.current_msg_id == 0
        &&& state.messages@.len() == 0
        &&& state.confirmed_seen@.len() == 0
    }

    open spec fn event_requires(&self, event: Event<BroadcastBody>) -> bool {
        match event {
            Event::Message(m) => {
                &&& self.current_msg_id < usize::MAX
                &&& BroadcastBody::reply_requires(m.body, *self)
            },
            Event::PropogateWrites => self.current_msg_id + self.neighbors@.len() <= usize::MAX,
        }
    }

    open spec fn event_ensures(
        &self,
        event: Event<BroadcastBody>,
        post: &Self,
        sent: Seq<MaelstromMessage<BroadcastBody>>,
    ) -> bool {
        match event {
            Event::Message(m) => {
                &&& post.current_msg_id == self.current_msg_id + 1
                &&& answered(
                    m,
                    *self,
                    (BroadcastNode { current_msg_id: self.current_msg_id, ..*post }),
                    sent,
                )
            },
            Event::PropogateWrites => {
                &&& *post == (BroadcastNode {
                    current_msg_id: (self.current_msg_id + sent.len()) as usize,
                    ..*self
                })
                &&& self.gossip_sent(
                    self.gossip_targets(self.neighbors@),
                    self.current_msg_id as nat,
                    sent,
                )
            },
        }
    }

    fn node_init(node_metadata: NodeMetadata) -> (r: Self) {
        let other_node_ids = other_node_ids(&node_metadata);
        BroadcastNode {
            current_msg_id: 0,
            node_id: node_metadata.node_id,
            messages: Vec::new(),
            other_node_ids,
            neighbors: Vec::new(),
            confirmed_seen: Vec::new(),
        }
    }

    fn handle_event(&mut self, event: Event<BroadcastBody>) -> (sent: Vec<
        MaelstromMessage<BroadcastBody>,
    >) {
        match event {
            Event::Message(message) => {
                let sent = message.reply_envelopes(self);
                self.current_msg_id = self.current_msg_id + 1;
                sent
            },
            Event::PropogateWrites => self.gossip_round(),
        }
    }
}

} // verus!
