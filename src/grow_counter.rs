//! A grow-only counter replicated as a state-based CRDT.
//!
//! Each node keeps one count per node. It raises only its own entry directly;
//! the entries it receives from peers are merged by taking the larger value.
//! On each tick it sends its whole table to every peer.

use vstd::prelude::*;

use crate::init::NodeMetadata;
use crate::keyed::{
    find_entry, keys_distinct, lemma_table_contains, lemma_table_index, lemma_table_remove,
    table_insert, table_view,
};
use crate::node::{answered, other_node_ids, peers_of, Event, MaelstromMessage, Node, Reply};

verus! {

/// State of a counter node.
#[derive(Clone, Debug, PartialEq, Eq)]
pub struct CounterNode {
    pub node_id: String,
    pub other_node_ids: Vec<String>,
    pub current_msg_id: usize,
    /// Per node, the largest count known for it.
    pub node_counter_map: Vec<(String, usize)>,
}

/// Payloads of the counter protocol.
#[derive(Clone, Debug, PartialEq, Eq)]
pub enum CounterBody {
    Add { msg_id: usize, delta: usize },
    AddOk { msg_id: usize, in_reply_to: usize },
    Read { msg_id: usize },
    ReadOk { msg_id: usize, in_reply_to: usize, value: usize },
    UpdateCounters { msg_id: usize, node_counter_map: Vec<(String, usize)> },
}

/// The count of `k` in `m`, zero where there is none.
pub open spec fn count_of(m: Map<Seq<char>, usize>, k: Seq<char>) -> nat {
    if m.contains_key(k) {
        m[k] as nat
    } else {
        0
    }
}

/// The sum of the counts of a table.
pub open spec fn total(s: Seq<(String, usize)>) -> nat
    decreases s.len(),
{
    if s.len() == 0 {
        0
    } else {
        total(s.drop_last()) + s.last().1 as nat
    }
}

/// The larger of two counts.
pub open spec fn max_count(a: nat, b: nat) -> nat {
    if a >= b {
        a
    } else {
        b
    }
}

/// `m` after merging the counts of `incoming`, in order.
pub open spec fn merge_all(m: Map<Seq<char>, usize>, incoming: Seq<(String, usize)>) -> Map<
    Seq<char>,
    usize,
>
    decreases incoming.len(),
{
    if incoming.len() == 0 {
        m
    } else {
        let prev = merge_all(m, incoming.drop_last());
        let (k, v) = incoming.last();
        prev.insert(k@, max_count(count_of(prev, k@), v as nat) as usize)
    }
}

/// The join of two count tables: every key of either, with the larger count.
pub open spec fn join(a: Map<Seq<char>, usize>, b: Map<Seq<char>, usize>) -> Map<Seq<char>, usize> {
    Map::new(
        |k: Seq<char>| a.contains_key(k) || b.contains_key(k),
        |k: Seq<char>| max_count(count_of(a, k), count_of(b, k)) as usize,
    )
}

impl CounterNode {
    pub open spec fn wf(&self) -> bool {
        keys_distinct(self.node_counter_map@)
    }

    /// The counts, by node.
    pub open spec fn counts(&self) -> Map<Seq<char>, usize> {
        table_view(self.node_counter_map@)
    }

    /// The value of the counter: the sum of all counts.
    pub open spec fn read_value(&self) -> nat {
        total(self.node_counter_map@)
    }

    /// The value of the counter, where it fits in a `usize`.
    pub fn total_count(&self) -> (r: Option<usize>)
        ensures
            r == (if self.read_value() <= usize::MAX {
                Some(self.read_value() as usize)
            } else {
                None
            }),
    {
        let t = &self.node_counter_map;
        let mut sum: usize = 0;
        let mut i: usize = 0;
        while i < t.len()
            invariant
                i <= t@.len(),
                t@ == self.node_counter_map@,
                sum == total(t@.take(i as int)),
            decreases t@.len() - i,
        {
            assert(t@.take(i + 1).drop_last() =~= t@.take(i as int));
            proof {
                lemma_total_prefix(t@, i as int + 1);
                assert(t@.take(i + 1).last() == t@[i as int]);
                assert(total(t@.take(i + 1)) == sum + t@[i as int].1);
            }
            if sum > usize::MAX - t[i].1 {
                return None;
            }
            sum = sum + t[i].1;
            i = i + 1;
        }
        assert(t@.take(t@.len() as int) =~= t@);
        Some(sum)
    }

    /// Raises this node's own count by `delta`.
    pub fn add(&mut self, delta: usize)
        requires
            old(self).wf(),
            count_of(old(self).counts(), old(self).node_id@) + delta <= usize::MAX,
        ensures
            final(self).wf(),
            final(self).counts() == old(self).counts().insert(
                old(self).node_id@,
                (count_of(old(self).counts(), old(self).node_id@) + delta) as usize,
            ),
            final(self).node_id == old(self).node_id,
            final(self).other_node_ids == old(self).other_node_ids,
            final(self).current_msg_id == old(self).current_msg_id,
    {
        let own = match find_entry(&self.node_counter_map, &self.node_id) {
            Some(i) => self.node_counter_map[i].1,
            None => 0,
        };
        let id = self.node_id.clone();
        table_insert(&mut self.node_counter_map, id, own + delta);
    }

    /// Merges `incoming` into the counts, keeping the larger count per node.
    pub fn merge(&mut self, incoming: &Vec<(String, usize)>)
        requires
            old(self).wf(),
        ensures
            final(self).wf(),
            final(self).counts() == merge_all(old(self).counts(), incoming@),
            final(self).node_id == old(self).node_id,
            final(self).other_node_ids == old(self).other_node_ids,
            final(self).current_msg_id == old(self).current_msg_id,
    {
        let ghost start = self.counts();
        let mut i: usize = 0;
        while i < incoming.len()
            invariant
                self.wf(),
                i <= incoming@.len(),
                self.counts() == merge_all(start, incoming@.take(i as int)),
                self.node_id == old(self).node_id,
                self.other_node_ids == old(self).other_node_ids,
                self.current_msg_id == old(self).current_msg_id,
            decreases incoming@.len() - i,
        {
            assert(incoming@.take(i + 1).drop_last() =~= incoming@.take(i as int));
            let key = &incoming[i].0;
            let value = incoming[i].1;
            let merged = match find_entry(&self.node_counter_map, key) {
                Some(j) => if self.node_counter_map[j].1 >= value {
                    self.node_counter_map[j].1
                } else {
                    value
                },
                None => value,
            };
            table_insert(&mut self.node_counter_map, key.clone(), merged);
            i = i + 1;
        }
        assert(incoming@.take(incoming@.len() as int) =~= incoming@);
    }

    /// The full table, sent to every peer, in order, on a tick.
    pub fn share_counts(&mut self) -> (sent: Vec<MaelstromMessage<CounterBody>>)
        requires
            old(self).current_msg_id + old(self).other_node_ids@.len() <= usize::MAX,
        ensures
            *final(self) == (CounterNode {
                current_msg_id: (old(self).current_msg_id + old(self).other_node_ids@.len()) as usize,
                ..*old(self)
            }),
            sent@.len() == old(self).other_node_ids@.len(),
            forall|j: int|
                0 <= j < sent@.len() ==> {
                    &&& (#[trigger] sent@[j]).src == old(self).node_id
                    &&& sent@[j].dest == old(self).other_node_ids@[j]
                    &&& match sent@[j].body {
                        CounterBody::UpdateCounters { msg_id, node_counter_map } => {
                            &&& msg_id == old(self).current_msg_id + j
                            &&& node_counter_map@ == old(self).node_counter_map@
                        },
                        _ => false,
                    }
                },
    {
        let ghost pre = *self;
        let mut sent: Vec<MaelstromMessage<CounterBody>> = Vec::new();
        let mut i: usize = 0;
        while i < self.other_node_ids.len()
            invariant
                i <= pre.other_node_ids@.len(),
                sent@.len() == i,
                pre.current_msg_id + pre.other_node_ids@.len() <= usize::MAX,
                *self == (CounterNode { current_msg_id: (pre.current_msg_id + i) as usize, ..pre }),
                forall|j: int|
                    0 <= j < sent@.len() ==> {
                        &&& (#[trigger] sent@[j]).src == pre.node_id
                        &&& sent@[j].dest == pre.other_node_ids@[j]
                        &&& match sent@[j].body {
                            CounterBody::UpdateCounters { msg_id, node_counter_map } => {
                                &&& msg_id == pre.current_msg_id + j
                                &&& node_counter_map@ == pre.node_counter_map@
                            },
                            _ => false,
                        }
                    },
            decreases pre.other_node_ids@.len() - i,
        {
            let m = MaelstromMessage {
                src: self.node_id.clone(),
                dest: self.other_node_ids[i].clone(),
                body: CounterBody::UpdateCounters {
                    msg_id: self.current_msg_id,
                    node_counter_map: copy_counts(&self.node_counter_map),
                },
            };
            sent.push(m);
            self.current_msg_id = self.current_msg_id + 1;
            i = i + 1;
        }
        sent
    }
}

proof fn lemma_total_prefix(s: Seq<(String, usize)>, i: int)
    requires
        0 <= i <= s.len(),
    ensures
        total(s.take(i)) <= total(s),
    decreases s.len() - i,
{
    if i < s.len() {
        lemma_total_prefix(s, i + 1);
        assert(s.take(i + 1).drop_last() =~= s.take(i));
    } else {
        assert(s.take(i) =~= s);
    }
}

proof fn lemma_total_remove(s: Seq<(String, usize)>, i: int)
    requires
        0 <= i < s.len(),
    ensures
        total(s) == total(s.remove(i)) + s[i].1,
    decreases s.len(),
{
    if i == s.len() - 1 {
        assert(s.remove(i) =~= s.drop_last());
    } else {
        lemma_total_remove(s.drop_last(), i);
        assert(s.remove(i).drop_last() =~= s.drop_last().remove(i));
        assert(s.remove(i).last() == s.last());
    }
}

/// Two tables that hold the same counts have the same sum, whatever the
/// order of their entries.
pub proof fn lemma_total_by_counts(s: Seq<(String, usize)>, t: Seq<(String, usize)>)
    requires
        keys_distinct(s),
        keys_distinct(t),
        table_view(s) == table_view(t),
    ensures
        total(s) == total(t),
    decreases s.len(),
{
    if s.len() == 0 {
        if t.len() > 0 {
            lemma_table_index(t, 0);
        }
    } else {
        let d = s.drop_last();
        let k = s.last().0@;
        let v = s.last().1;
        assert(keys_distinct(d)) by {
            assert forall|a: int, b: int|
                0 <= a < d.len() && 0 <= b < d.len() && a != b implies #[trigger] d[a].0@
                != #[trigger] d[b].0@ by {
                assert(s[a].0@ != s[b].0@);
            }
        }
        lemma_table_index(s, s.len() - 1);
        lemma_table_contains(t, k);
        let j = choose|j: int| 0 <= j < t.len() && t[j].0@ == k;
        lemma_table_index(t, j);
        lemma_table_remove(t, j);
        lemma_table_contains(d, k);
        assert forall|a: int| 0 <= a < d.len() implies d[a].0@ != k by {
            assert(s[a].0@ != s[s.len() - 1].0@);
        }
        assert(table_view(d) =~= table_view(s).remove(k));
        lemma_total_by_counts(d, t.remove(j));
        lemma_total_remove(t, j);
    }
}

/// A copy of a count table.
pub fn copy_counts(t: &Vec<(String, usize)>) -> (r: Vec<(String, usize)>)
    ensures
        r@ == t@,
{
    let mut r: Vec<(String, usize)> = Vec::new();
    let mut i: usize = 0;
    while i < t.len()
        invariant
            i <= t@.len(),
            r@ == t@.take(i as int),
        decreases t@.len() - i,
    {
        r.push((t[i].0.clone(), t[i].1));
        assert(t@.take(i + 1) =~= t@.take(i as int).push(t@[i as int]));
        i = i + 1;
    }
    assert(t@.take(t@.len() as int) =~= t@);
    r
}

proof fn lemma_merge_monotone(m: Map<Seq<char>, usize>, incoming: Seq<(String, usize)>)
    ensures
        forall|k: Seq<char>|
            m.contains_key(k) ==> #[trigger] merge_all(m, incoming).contains_key(k)
                && merge_all(m, incoming)[k] >= m[k],
    decreases incoming.len(),
{
    if incoming.len() > 0 {
        let d = incoming.drop_last();
        lemma_merge_monotone(m, d);
        let prev = merge_all(m, d);
        let (key, v) = incoming.last();
        assert forall|k: Seq<char>| m.contains_key(k) implies #[trigger] merge_all(
            m,
            incoming,
        ).contains_key(k) && merge_all(m, incoming)[k] >= m[k] by {
            assert(prev.contains_key(k));
            if k == key@ {
                assert(count_of(prev, k) == prev[k]);
                assert(max_count(count_of(prev, k), v as nat) <= usize::MAX);
            }
        }
    }
}

/// No message lowers any count a node holds, and none removes one.
pub proof fn lemma_counts_never_decrease(
    msg: CounterBody,
    pre: CounterNode,
    post: CounterNode,
    src: Seq<char>,
    reply: Option<CounterBody>,
)
    requires
        CounterBody::reply_requires(msg, pre),
        CounterBody::reply_ensures(msg, pre, post, src, reply),
    ensures
        forall|k: Seq<char>|
            pre.counts().contains_key(k) ==> #[trigger] post.counts().contains_key(k)
                && post.counts()[k] >= pre.counts()[k],
{
    if let CounterBody::UpdateCounters { node_counter_map, .. } = msg {
        lemma_merge_monotone(pre.counts(), node_counter_map@);
    } else if let CounterBody::Add { delta, .. } = msg {
        let own = pre.node_id@;
        assert forall|k: Seq<char>| pre.counts().contains_key(k) implies #[trigger] post.counts().contains_key(k)
            && post.counts()[k] >= pre.counts()[k] by {
            if k == own {
                assert(count_of(pre.counts(), own) == pre.counts()[k]);
            }
        }
    }
}

/// Merging a table into `m` is the join of `m` with the counts it holds.
pub proof fn lemma_merge_is_join(m: Map<Seq<char>, usize>, incoming: Seq<(String, usize)>)
    requires
        keys_distinct(incoming),
    ensures
        merge_all(m, incoming) == join(m, table_view(incoming)),
    decreases incoming.len(),
{
    if incoming.len() == 0 {
        assert(merge_all(m, incoming) =~= join(m, table_view(incoming)));
    } else {
        let d = incoming.drop_last();
        assert(keys_distinct(d)) by {
            assert forall|a: int, b: int|
                0 <= a < d.len() && 0 <= b < d.len() && a != b implies #[trigger] d[a].0@
                != #[trigger] d[b].0@ by {
                assert(incoming[a].0@ != incoming[b].0@);
            }
        }
        lemma_merge_is_join(m, d);
        let k = incoming.last().0@;
        crate::keyed::lemma_table_contains(d, k);
        assert forall|i: int| 0 <= i < d.len() implies d[i].0@ != k by {
            assert(incoming[i].0@ != incoming[incoming.len() - 1].0@);
        }
        assert(!table_view(d).contains_key(k));
        assert(merge_all(m, incoming) =~= join(m, table_view(incoming)));
    }
}

/// The join of count tables does not depend on their order.
pub proof fn lemma_join_commutative(a: Map<Seq<char>, usize>, b: Map<Seq<char>, usize>)
    ensures
        join(a, b) == join(b, a),
{
    assert(join(a, b) =~= join(b, a));
}

/// Joining a table that was already joined in changes nothing.
pub proof fn lemma_join_idempotent(a: Map<Seq<char>, usize>, b: Map<Seq<char>, usize>)
    ensures
        join(join(a, b), b) == join(a, b),
        join(a, a) == a,
{
    assert(join(join(a, b), b) =~= join(a, b));
    assert(join(a, a) =~= a);
}

/// A node that merges a peer's table learns the peer's own count, provided
/// it held no larger count for that peer: a count for a node never exceeds
/// what that node has added itself.
pub proof fn lemma_merge_learns_owner_count(
    x: CounterNode,
    y: CounterNode,
    x_post: CounterNode,
    src: Seq<char>,
    reply: Option<CounterBody>,
    msg_id: usize,
)
    requires
        y.wf(),
        CounterBody::reply_ensures(
            CounterBody::UpdateCounters { msg_id, node_counter_map: y.node_counter_map },
            x,
            x_post,
            src,
            reply,
        ),
        count_of(x.counts(), y.node_id@) <= count_of(y.counts(), y.node_id@),
    ensures
        count_of(x_post.counts(), y.node_id@) == count_of(y.counts(), y.node_id@),
{
    lemma_merge_is_join(x.counts(), y.node_counter_map@);
}

/// The count a node holds for itself: what it has added.
pub open spec fn own_count(n: CounterNode) -> nat {
    count_of(n.counts(), n.node_id@)
}

/// The sum of the nodes' own counts: everything added across the cluster.
pub open spec fn own_total(nodes: Seq<CounterNode>) -> nat
    decreases nodes.len(),
{
    if nodes.len() == 0 {
        0
    } else {
        own_total(nodes.drop_last()) + own_count(nodes.last())
    }
}

spec fn own_table(nodes: Seq<CounterNode>) -> Seq<(String, usize)> {
    Seq::new(nodes.len(), |i: int| (nodes[i].node_id, own_count(nodes[i]) as usize))
}

proof fn lemma_own_table_total(nodes: Seq<CounterNode>)
    ensures
        total(own_table(nodes)) == own_total(nodes),
    decreases nodes.len(),
{
    if nodes.len() > 0 {
        lemma_own_table_total(nodes.drop_last());
        assert(own_table(nodes).drop_last() =~= own_table(nodes.drop_last()));
        assert(own_count(nodes.last()) <= usize::MAX);
    }
}

/// Once a node holds, for every node of the cluster, that node's own count
/// and nothing else, a read on it returns the sum of all own counts: the
/// total of every add applied anywhere in the cluster.
pub proof fn lemma_converged_read_is_total(nodes: Seq<CounterNode>, x: CounterNode)
    requires
        x.wf(),
        forall|i: int, j: int|
            0 <= i < nodes.len() && 0 <= j < nodes.len() && i != j ==> (#[trigger] nodes[i]).node_id@
                != (#[trigger] nodes[j]).node_id@,
        forall|i: int|
            0 <= i < nodes.len() ==> count_of(x.counts(), (#[trigger] nodes[i]).node_id@)
                == own_count(nodes[i]) && x.counts().contains_key(nodes[i].node_id@),
        forall|k: Seq<char>|
            #[trigger] x.counts().contains_key(k) ==> exists|i: int|
                0 <= i < nodes.len() && nodes[i].node_id@ == k,
    ensures
        x.read_value() == own_total(nodes),
{
    let t = own_table(nodes);
    assert(keys_distinct(t)) by {
        assert forall|a: int, b: int|
            0 <= a < t.len() && 0 <= b < t.len() && a != b implies #[trigger] t[a].0@
            != #[trigger] t[b].0@ by {
            assert(nodes[a].node_id@ != nodes[b].node_id@);
        }
    }
    assert forall|k: Seq<char>| #[trigger] table_view(t).contains_key(k) == x.counts().contains_key(k)
        && (x.counts().contains_key(k) ==> table_view(t)[k] == x.counts()[k]) by {
        lemma_table_contains(t, k);
        if x.counts().contains_key(k) {
            let i = choose|i: int| 0 <= i < nodes.len() && nodes[i].node_id@ == k;
            assert(t[i].0@ == k);
            lemma_table_index(t, i);
        }
        if table_view(t).contains_key(k) {
            let i = choose|i: int| 0 <= i < t.len() && t[i].0@ == k;
            assert(nodes[i].node_id@ == k);
        }
    }
    assert(table_view(t) =~= x.counts());
    lemma_total_by_counts(x.node_counter_map@, t);
    lemma_own_table_total(nodes);
}

/// Two nodes that each merge the other's table end with the same counts,
/// and so read the same value.
pub proof fn lemma_counters_converge(
    x: CounterNode,
    y: CounterNode,
    x_post: CounterNode,
    y_post: CounterNode,
    x_src: Seq<char>,
    y_src: Seq<char>,
    x_reply: Option<CounterBody>,
    y_reply: Option<CounterBody>,
    x_msg_id: usize,
    y_msg_id: usize,
)
    requires
        x.wf(),
        y.wf(),
        CounterBody::reply_ensures(
            CounterBody::UpdateCounters { msg_id: y_msg_id, node_counter_map: y.node_counter_map },
            x,
            x_post,
            x_src,
            x_reply,
        ),
        CounterBody::reply_ensures(
            CounterBody::UpdateCounters { msg_id: x_msg_id, node_counter_map: x.node_counter_map },
            y,
            y_post,
            y_src,
            y_reply,
        ),
    ensures
        x_post.counts() == y_post.counts(),
        x_post.read_value() == y_post.read_value(),
{
    lemma_merge_is_join(x.counts(), y.node_counter_map@);
    lemma_merge_is_join(y.counts(), x.node_counter_map@);
    lemma_join_commutative(x.counts(), y.counts());
    lemma_total_by_counts(x_post.node_counter_map@, y_post.node_counter_map@);
}

impl Reply<CounterNode> for CounterBody {
    open spec fn reply_requires(self, state: CounterNode) -> bool {
        &&& state.wf()
        &&& match self {
            CounterBody::Add { delta, .. } => count_of(state.counts(), state.node_id@) + delta
                <= usize::MAX,
            CounterBody::Read { .. } => state.read_value() <= usize::MAX,
            _ => true,
        }
    }

    open spec fn reply_ensures(
        self,
        pre: CounterNode,
        post: CounterNode,
        src: Seq<char>,
        reply: Option<CounterBody>,
    ) -> bool {
        &&& post.wf()
        &&& post.node_id == pre.node_id
        &&& post.other_node_ids == pre.other_node_ids
        &&& post.current_msg_id == pre.current_msg_id
        &&& match self {
            CounterBody::Add { msg_id, delta } => {
                &&& post.counts() == pre.counts().insert(
                    pre.node_id@,
                    (count_of(pre.counts(), pre.node_id@) + delta) as usize,
                )
                &&& reply == Some(
                    CounterBody::AddOk { msg_id: pre.current_msg_id, in_reply_to: msg_id },
                )
            },
            CounterBody::Read { msg_id } => {
                &&& post == pre
                &&& reply == Some(
                    CounterBody::ReadOk {
                        msg_id: pre.current_msg_id,
                        in_reply_to: msg_id,
                        value: pre.read_value() as usize,
                    },
                )
            },
            CounterBody::UpdateCounters { node_counter_map, .. } => {
                &&& post.counts() == merge_all(pre.counts(), node_counter_map@)
                &&& reply is None
            },
            _ => post == pre && reply is None,
        }
    }

    fn into_reply(self, node_state: &mut CounterNode, src: &String) -> (r: Option<Self>) {
        match self {
            CounterBody::Add { msg_id, delta } => {
                node_state.add(delta);
                Some(CounterBody::AddOk { msg_id: node_state.current_msg_id, in_reply_to: msg_id })
            },
            CounterBody::Read { msg_id } => {
                let value = match node_state.total_count() {
                    Some(v) => v,
                    None => {
                        proof {
                            assert(false);
                        }
                        0
                    },
                };
                Some(
                    CounterBody::ReadOk {
                        msg_id: node_state.current_msg_id,
                        in_reply_to: msg_id,
                        value,
                    },
                )
            },
            CounterBody::UpdateCounters { node_counter_map, .. } => {
                node_state.merge(&node_counter_map);
                None
            },
            _ => None,
        }
    }
}

impl Node<CounterBody> for CounterNode {
    open spec fn wf(&self) -> bool {
        CounterNode::wf(self)
    }

    open spec fn initial(node_metadata: NodeMetadata, state: Self) -> bool {
        &&& state.node_id == node_metadata.node_id
        &&& state.other_node_ids@ == peers_of(node_metadata.node_ids@, node_metadata.node_id@)
        &&& state.current_msg_id == 0
        &&& state.node_counter_map@.len() == 0
    }

    open spec fn event_requires(&self, event: Event<CounterBody>) -> bool {
        match event {
            Event::Message(m) => {
                &&& self.current_msg_id < usize::MAX
                &&& CounterBody::reply_requires(m.body, *self)
            },
            Event::PropogateWrites => self.current_msg_id + self.other_node_ids@.len()
                <= usize::MAX,
        }
    }

    open spec fn event_ensures(
        &self,
        event: Event<CounterBody>,
        post: &Self,
        sent: Seq<MaelstromMessage<CounterBody>>,
    ) -> bool {
        match event {
            Event::Message(m) => {
                &&& post.current_msg_id == self.current_msg_id + 1
                &&& answered(
                    m,
                    *self,
                    (CounterNode { current_msg_id: self.current_msg_id, ..*post }),
                    sent,
                )
            },
            Event::PropogateWrites => {
                &&& *post == (CounterNode {
                    current_msg_id: (self.current_msg_id + self.other_node_ids@.len()) as usize,
                    ..*self
                })
                &&& sent.len() == self.other_node_ids@.len()
                &&& forall|j: int|
                    0 <= j < sent.len() ==> {
                        &&& (#[trigger] sent[j]).src == self.node_id
                        &&& sent[j].dest == self.other_node_ids@[j]
                        &&& match sent[j].body {
                            CounterBody::UpdateCounters { msg_id, node_counter_map } => {
                                &&& msg_id == self.current_msg_id + j
                                &&& node_counter_map@ == self.node_counter_map@
                            },
                            _ => false,
                        }
                    }
            },
        }
    }

    fn node_init(node_metadata: NodeMetadata) -> (r: Self) {
        let other_node_ids = other_node_ids(&node_metadata);
        CounterNode {
            node_id: node_metadata.node_id,
            current_msg_id: 0,
            other_node_ids,
            node_counter_map: Vec::new(),
        }
    }

    fn handle_event(&mut self, event: Event<CounterBody>) -> (sent: Vec<
        MaelstromMessage<CounterBody>,
    >) {
        match event {
            Event::Message(message) => {
                let sent = message.reply_envelopes(self);
                self.current_msg_id = self.current_msg_id + 1;
                sent
            },
            Event::PropogateWrites => self.share_counts(),
        }
    }
}

} // verus!
