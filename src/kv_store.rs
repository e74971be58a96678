//! A transactional key-value store whose writes are propagated to every peer.
//!
//! Transactions run against the local store. Each write is also logged as
//! pending; on a tick the pending writes are sent to every peer, which applies
//! them directly: the last write applied wins.

use vstd::prelude::*;

use std::collections::HashMap;

use crate::init::NodeMetadata;
use crate::keyed::lookup;
use crate::node::{answered, other_node_ids, peers_of, Event, MaelstromMessage, Node, Reply};

verus! {

broadcast use vstd::std_specs::hash::group_hash_axioms;

/// One operation of a transaction: its kind (`"r"` or `"w"`), its key, and
/// its value (written, or observed by a read).
pub type TxnOp = (String, usize, Option<usize>);

/// State of a key-value node.
#[derive(Clone, Debug)]
pub struct KVStoreNode {
    pub current_msg_id: usize,
    pub node_id: String,
    pub other_node_ids: Vec<String>,
    pub kv_store: HashMap<usize, usize>,
    /// The writes not yet sent to peers, in the order applied.
    pub unpropogated_writes: Vec<(usize, usize)>,
}

/// Payloads of the key-value protocol.
#[derive(Clone, Debug, PartialEq, Eq)]
pub enum KVStoreBody {
    Txn { msg_id: usize, txn: Vec<TxnOp> },
    TxnOk { msg_id: usize, in_reply_to: usize, txn: Vec<TxnOp> },
    /// Writes sent from node to node, to be applied in order.
    WritePropogater { transaction_guid: usize, write_ops: Vec<(usize, usize)> },
}

/// The kind of a read.
pub open spec fn is_read(kind: Seq<char>) -> bool {
    kind == seq!['r']
}

/// The kind of a write.
pub open spec fn is_write(kind: Seq<char>) -> bool {
    kind == seq!['w']
}

/// A well-formed operation: a read, or a write that carries its value.
pub open spec fn op_valid(op: TxnOp) -> bool {
    is_read(op.0@) || (is_write(op.0@) && op.2 is Some)
}

/// The writes among `ops`, in order.
pub open spec fn writes_of(ops: Seq<TxnOp>) -> Seq<(usize, usize)>
    decreases ops.len(),
{
    if ops.len() == 0 {
        Seq::empty()
    } else {
        let op = ops.last();
        if is_write(op.0@) && op.2 is Some {
            writes_of(ops.drop_last()).push((op.1, op.2->Some_0))
        } else {
            writes_of(ops.drop_last())
        }
    }
}

/// `m` after applying `writes` in order.
pub open spec fn apply_writes(m: Map<usize, usize>, writes: Seq<(usize, usize)>) -> Map<
    usize,
    usize,
>
    decreases writes.len(),
{
    if writes.len() == 0 {
        m
    } else {
        apply_writes(m, writes.drop_last()).insert(writes.last().0, writes.last().1)
    }
}

/// `results` answers the operations `ops` run in order from store `m`: each
/// read observes the store as the operations before it left it, and each
/// write echoes its value.
pub open spec fn txn_answers(m: Map<usize, usize>, ops: Seq<TxnOp>, results: Seq<TxnOp>) -> bool {
    &&& results.len() == ops.len()
    &&& forall|i: int|
        0 <= i < ops.len() ==> {
            &&& (#[trigger] results[i]).0@ == ops[i].0@
            &&& results[i].1 == ops[i].1
            &&& results[i].2 == if is_read(ops[i].0@) {
                lookup(apply_writes(m, writes_of(ops.take(i))), ops[i].1)
            } else {
                ops[i].2
            }
        }
}

/// Whether `kind` is the one-character kind `c`.
pub fn is_kind(kind: &String, c: char) -> (r: bool)
    ensures
        r == (kind@ == seq![c]),
{
    let s = kind.as_str();
    if s.unicode_len() == 1 {
        let first = s.get_char(0);
        assert(first == c ==> kind@ =~= seq![c]);
        first == c
    } else {
        false
    }
}

/// Runs one operation on `kv_store`: a read gives the value found; a write
/// stores its value and logs it in `unpropogated_writes`.
pub fn key_value_crud(
    rw_op: TxnOp,
    kv_store: &mut HashMap<usize, usize>,
    unpropogated_writes: &mut Vec<(usize, usize)>,
) -> (r: TxnOp)
    requires
        op_valid(rw_op),
    ensures
        r.0 == rw_op.0,
        r.1 == rw_op.1,
        is_read(rw_op.0@) ==> {
            &&& final(kv_store)@ == old(kv_store)@
            &&& final(unpropogated_writes)@ == old(unpropogated_writes)@
            &&& r.2 == lookup(old(kv_store)@, rw_op.1)
        },
        !is_read(rw_op.0@) ==> {
            &&& final(kv_store)@ == old(kv_store)@.insert(rw_op.1, rw_op.2->Some_0)
            &&& final(unpropogated_writes)@ == old(unpropogated_writes)@.push(
                (rw_op.1, rw_op.2->Some_0),
            )
            &&& r.2 == rw_op.2
        },
{
    let r = crate::body::key_value_crud(rw_op, kv_store);
    if !is_kind(&r.0, 'r') {
        unpropogated_writes.push((r.1, r.2.unwrap()));
    }
    r
}

/// A copy of a list of writes.
pub fn copy_writes(w: &Vec<(usize, usize)>) -> (r: Vec<(usize, usize)>)
    ensures
        r@ == w@,
{
    let mut r: Vec<(usize, usize)> = Vec::new();
    let mut i: usize = 0;
    while i < w.len()
        invariant
            i <= w@.len(),
            r@ == w@.take(i as int),
        decreases w@.len() - i,
    {
        r.push(w[i]);
        assert(w@.take(i + 1) =~= w@.take(i as int).push(w@[i as int]));
        i = i + 1;
    }
    assert(w@.take(w@.len() as int) =~= w@);
    r
}

/// Applies `writes` to `kv_store` in order.
pub fn apply_write_ops(kv_store: &mut HashMap<usize, usize>, writes: &Vec<(usize, usize)>)
    ensures
        final(kv_store)@ == apply_writes(old(kv_store)@, writes@),
{
    let ghost start = kv_store@;
    let mut i: usize = 0;
    while i < writes.len()
        invariant
            i <= writes@.len(),
            kv_store@ == apply_writes(start, writes@.take(i as int)),
        decreases writes@.len() - i,
    {
        assert(writes@.take(i + 1).drop_last() =~= writes@.take(i as int));
        let (key, value) = writes[i];
        kv_store.insert(key, value);
        i = i + 1;
    }
    assert(writes@.take(writes@.len() as int) =~= writes@);
}

/// Runs the operations `ops` in order on `kv_store`, logging each write in
/// `pending`, and gives the answered operations.
pub fn run_txn(
    ops: Vec<TxnOp>,
    kv_store: &mut HashMap<usize, usize>,
    pending: &mut Vec<(usize, usize)>,
) -> (r: Vec<TxnOp>)
    requires
        forall|i: int| 0 <= i < ops@.len() ==> op_valid(#[trigger] ops@[i]),
    ensures
        final(kv_store)@ == apply_writes(old(kv_store)@, writes_of(ops@)),
        final(pending)@ == old(pending)@ + writes_of(ops@),
        txn_answers(old(kv_store)@, ops@, r@),
{
    let ghost start = kv_store@;
    let ghost log = pending@;
    let mut r: Vec<TxnOp> = Vec::new();
    let mut ops = ops;
    let ghost all = ops@;
    let mut i: usize = 0;
    while i < ops.len()
        invariant
            ops@ == all,
            forall|j: int| 0 <= j < all.len() ==> op_valid(#[trigger] all[j]),
            i <= all.len(),
            kv_store@ == apply_writes(start, writes_of(all.take(i as int))),
            pending@ == log + writes_of(all.take(i as int)),
            r@.len() == i,
            forall|j: int|
                0 <= j < i ==> {
                    &&& (#[trigger] r@[j]).0@ == all[j].0@
                    &&& r@[j].1 == all[j].1
                    &&& r@[j].2 == if is_read(all[j].0@) {
                        lookup(apply_writes(start, writes_of(all.take(j))), all[j].1)
                    } else {
                        all[j].2
                    }
                },
        decreases all.len() - i,
    {
        let op = (ops[i].0.clone(), ops[i].1, ops[i].2);
        assert(op.0@ == all[i as int].0@);
        let ghost before = writes_of(all.take(i as int));
        assert(all.take(i + 1).drop_last() =~= all.take(i as int));
        assert(all.take(i + 1).last() == all[i as int]);
        let answered = key_value_crud(op, kv_store, pending);
        if !is_kind(&answered.0, 'r') {
            assert(is_write(all[i as int].0@) && all[i as int].2 is Some);
            let ghost w = (all[i as int].1, all[i as int].2->Some_0);
            assert(writes_of(all.take(i + 1)) == before.push(w));
            assert(before.push(w).drop_last() =~= before);
            assert(apply_writes(start, before.push(w)) == apply_writes(start, before).insert(w.0, w.1));
            assert(pending@ =~= log + before.push(w));
        } else {
            assert(seq!['r'][0] != seq!['w'][0]);
            assert(!is_write(all[i as int].0@));
            assert(writes_of(all.take(i + 1)) == before);
        }
        r.push(answered);
        i = i + 1;
    }
    assert(all.take(all.len() as int) =~= all);
    r
}

/// Every pending write is what the store holds for its key.
pub open spec fn consistent(pending: Map<usize, usize>, store: Map<usize, usize>) -> bool {
    forall|k: usize| #[trigger] pending.contains_key(k) ==> lookup(store, k) == Some(pending[k])
}

/// `pending` after writes from elsewhere: a pending key takes the new value;
/// other keys stay as they were.
pub open spec fn refresh(pending: Map<usize, usize>, writes: Seq<(usize, usize)>) -> Map<
    usize,
    usize,
>
    decreases writes.len(),
{
    if writes.len() == 0 {
        pending
    } else {
        let prev = refresh(pending, writes.drop_last());
        let (k, v) = writes.last();
        if prev.contains_key(k) {
            prev.insert(k, v)
        } else {
            prev
        }
    }
}

/// Applying writes one batch after another is applying them all in order.
pub proof fn lemma_apply_concat(
    m: Map<usize, usize>,
    first: Seq<(usize, usize)>,
    then: Seq<(usize, usize)>,
)
    ensures
        apply_writes(m, first + then) == apply_writes(apply_writes(m, first), then),
    decreases then.len(),
{
    if then.len() == 0 {
        assert(first + then =~= first);
    } else {
        lemma_apply_concat(m, first, then.drop_last());
        assert((first + then).drop_last() =~= first + then.drop_last());
        assert((first + then).last() == then.last());
    }
}

pub proof fn lemma_apply_keeps_consistent(
    pending: Map<usize, usize>,
    store: Map<usize, usize>,
    writes: Seq<(usize, usize)>,
)
    requires
        consistent(pending, store),
    ensures
        consistent(apply_writes(pending, writes), apply_writes(store, writes)),
    decreases writes.len(),
{
    if writes.len() > 0 {
        lemma_apply_keeps_consistent(pending, store, writes.drop_last());
    }
}

pub proof fn lemma_refresh_keeps_consistent(
    pending: Map<usize, usize>,
    store: Map<usize, usize>,
    writes: Seq<(usize, usize)>,
)
    requires
        consistent(pending, store),
    ensures
        consistent(refresh(pending, writes), apply_writes(store, writes)),
    decreases writes.len(),
{
    if writes.len() > 0 {
        lemma_refresh_keeps_consistent(pending, store, writes.drop_last());
    }
}

proof fn lemma_apply_contains(m: Map<usize, usize>, writes: Seq<(usize, usize)>, k: usize)
    ensures
        apply_writes(m, writes).contains_key(k) <==> (m.contains_key(k) || exists|i: int|
            0 <= i < writes.len() && writes[i].0 == k),
    decreases writes.len(),
{
    if writes.len() > 0 {
        let d = writes.drop_last();
        lemma_apply_contains(m, d, k);
        if exists|i: int| 0 <= i < d.len() && d[i].0 == k {
            let i = choose|i: int| 0 <= i < d.len() && d[i].0 == k;
            assert(writes[i].0 == k);
        }
        if exists|i: int| 0 <= i < writes.len() && writes[i].0 == k {
            let i = choose|i: int| 0 <= i < writes.len() && writes[i].0 == k;
            if i < d.len() {
                assert(d[i].0 == k);
            }
        }
    }
}

/// Whether the log holds a write to `k`.
pub fn log_has_key(log: &Vec<(usize, usize)>, k: usize) -> (r: bool)
    ensures
        r == apply_writes(Map::empty(), log@).contains_key(k),
{
    proof {
        lemma_apply_contains(Map::empty(), log@, k);
    }
    let mut i: usize = 0;
    while i < log.len()
        invariant
            i <= log@.len(),
            forall|j: int| 0 <= j < i ==> log@[j].0 != k,
        decreases log@.len() - i,
    {
        if log[i].0 == k {
            proof {
                lemma_apply_contains(Map::empty(), log@, k);
                assert(log@[i as int].0 == k);
            }
            return true;
        }
        i = i + 1;
    }
    false
}

/// Brings the log up to date with writes applied to the store from
/// elsewhere: each write to a key that is pending is logged too.
pub fn refresh_pending(pending: &mut Vec<(usize, usize)>, writes: &Vec<(usize, usize)>)
    ensures
        apply_writes(Map::empty(), final(pending)@) == refresh(
            apply_writes(Map::empty(), old(pending)@),
            writes@,
        ),
{
    let ghost start = apply_writes(Map::empty(), pending@);
    let mut i: usize = 0;
    while i < writes.len()
        invariant
            i <= writes@.len(),
            apply_writes(Map::empty(), pending@) == refresh(start, writes@.take(i as int)),
        decreases writes@.len() - i,
    {
        assert(writes@.take(i + 1).drop_last() =~= writes@.take(i as int));
        let (key, value) = writes[i];
        if log_has_key(pending, key) {
            let ghost before = pending@;
            pending.push((key, value));
            assert(pending@.drop_last() =~= before);
        }
        i = i + 1;
    }
    assert(writes@.take(writes@.len() as int) =~= writes@);
}

/// After applying `writes` in order, a key holds the value of the last write
/// to it.
pub proof fn lemma_apply_last_write(m: Map<usize, usize>, writes: Seq<(usize, usize)>, i: int)
    requires
        0 <= i < writes.len(),
        forall|j: int| i < j < writes.len() ==> (#[trigger] writes[j]).0 != writes[i].0,
    ensures
        apply_writes(m, writes).contains_key(writes[i].0),
        apply_writes(m, writes)[writes[i].0] == writes[i].1,
    decreases writes.len(),
{
    if i < writes.len() - 1 {
        let d = writes.drop_last();
        assert forall|j: int| i < j < d.len() implies (#[trigger] d[j]).0 != d[i].0 by {
            assert(writes[j].0 != writes[i].0);
        }
        lemma_apply_last_write(m, d, i);
        assert(writes[writes.len() - 1].0 != writes[i].0);
    }
}

/// Last writer wins: once a node applies propagated writes, each key they
/// write holds the value of the last of them to that key, whatever the
/// node held before.
pub proof fn lemma_last_writer_wins(
    msg: KVStoreBody,
    pre: KVStoreNode,
    post: KVStoreNode,
    src: Seq<char>,
    reply: Option<KVStoreBody>,
    i: int,
)
    requires
        msg is WritePropogater,
        KVStoreBody::reply_ensures(msg, pre, post, src, reply),
        0 <= i < msg->WritePropogater_write_ops@.len(),
        forall|j: int|
            i < j < msg->WritePropogater_write_ops@.len() ==> (
            #[trigger] msg->WritePropogater_write_ops@[j]).0
                != msg->WritePropogater_write_ops@[i].0,
    ensures
        post.kv_store@.contains_key(msg->WritePropogater_write_ops@[i].0),
        post.kv_store@[msg->WritePropogater_write_ops@[i].0]
            == msg->WritePropogater_write_ops@[i].1,
{
    lemma_apply_last_write(pre.kv_store@, msg->WritePropogater_write_ops@, i);
}

/// Last writer wins across successive propagations: after a node applies
/// two batches of propagated writes, one after the other, a key holds the
/// value of the last write to it over both batches, in the order applied.
pub proof fn lemma_last_writer_wins_in_sequence(
    first: KVStoreBody,
    second: KVStoreBody,
    pre: KVStoreNode,
    mid: KVStoreNode,
    post: KVStoreNode,
    src1: Seq<char>,
    src2: Seq<char>,
    r1: Option<KVStoreBody>,
    r2: Option<KVStoreBody>,
    i: int,
)
    requires
        first is WritePropogater,
        second is WritePropogater,
        KVStoreBody::reply_ensures(first, pre, mid, src1, r1),
        KVStoreBody::reply_ensures(second, mid, post, src2, r2),
        0 <= i < (first->WritePropogater_write_ops@ + second->WritePropogater_write_ops@).len(),
        forall|j: int|
            i < j < (first->WritePropogater_write_ops@ + second->WritePropogater_write_ops@).len()
                ==> (#[trigger] (first->WritePropogater_write_ops@
                + second->WritePropogater_write_ops@)[j]).0 != (first->WritePropogater_write_ops@
                + second->WritePropogater_write_ops@)[i].0,
    ensures
        post.kv_store@.contains_key(
            (first->WritePropogater_write_ops@ + second->WritePropogater_write_ops@)[i].0,
        ),
        post.kv_store@[(first->WritePropogater_write_ops@
            + second->WritePropogater_write_ops@)[i].0] == (first->WritePropogater_write_ops@
            + second->WritePropogater_write_ops@)[i].1,
{
    let w1 = first->WritePropogater_write_ops@;
    let w2 = second->WritePropogater_write_ops@;
    lemma_apply_concat(pre.kv_store@, w1, w2);
    lemma_apply_last_write(pre.kv_store@, w1 + w2, i);
}

impl KVStoreNode {
    /// The writes not yet propagated, as a map: the last write of a key wins.
    pub open spec fn pending_writes(&self) -> Map<usize, usize> {
        apply_writes(Map::empty(), self.unpropogated_writes@)
    }

    /// Every key with a pending write holds that value in the store.
    pub open spec fn wf(&self) -> bool {
        consistent(self.pending_writes(), self.kv_store@)
    }

    /// On a tick: when writes are pending, the pending writes, sent to every
    /// peer in order; the pending log is emptied either way.
    pub fn propagate_pending(&mut self) -> (sent: Vec<MaelstromMessage<KVStoreBody>>)
        ensures
            final(self).wf(),
            final(self).unpropogated_writes@.len() == 0,
            final(self).kv_store == old(self).kv_store,
            final(self).current_msg_id == old(self).current_msg_id,
            final(self).node_id == old(self).node_id,
            final(self).other_node_ids == old(self).other_node_ids,
            old(self).unpropogated_writes@.len() == 0 ==> sent@.len() == 0,
            old(self).unpropogated_writes@.len() > 0 ==> sent@.len() == old(self).other_node_ids@.len(),
            forall|j: int|
                0 <= j < sent@.len() ==> {
                    &&& (#[trigger] sent@[j]).src == old(self).node_id
                    &&& sent@[j].dest == old(self).other_node_ids@[j]
                    &&& match sent@[j].body {
                        KVStoreBody::WritePropogater { transaction_guid, write_ops } => {
                            &&& transaction_guid == old(self).current_msg_id
                            &&& write_ops@ == old(self).unpropogated_writes@
                        },
                        _ => false,
                    }
                },
    {
        let mut drained: Vec<(usize, usize)> = Vec::new();
        std::mem::swap(&mut drained, &mut self.unpropogated_writes);
        let mut sent: Vec<MaelstromMessage<KVStoreBody>> = Vec::new();
        if drained.len() != 0 {
            let mut i: usize = 0;
            while i < self.other_node_ids.len()
                invariant
                    i <= self.other_node_ids@.len(),
                    sent@.len() == i,
                    forall|j: int|
                        0 <= j < sent@.len() ==> {
                            &&& (#[trigger] sent@[j]).src == self.node_id
                            &&& sent@[j].dest == self.other_node_ids@[j]
                            &&& match sent@[j].body {
                                KVStoreBody::WritePropogater { transaction_guid, write_ops } => {
                                    &&& transaction_guid == self.current_msg_id
                                    &&& write_ops@ == drained@
                                },
                                _ => false,
                            }
                        },
                decreases self.other_node_ids@.len() - i,
            {
                let m = MaelstromMessage {
                    src: self.node_id.clone(),
                    dest: self.other_node_ids[i].clone(),
                    body: KVStoreBody::WritePropogater {
                        transaction_guid: self.current_msg_id,
                        write_ops: copy_writes(&drained),
                    },
                };
                sent.push(m);
                i = i + 1;
            }
        }
        sent
    }
}

impl Reply<KVStoreNode> for KVStoreBody {
    open spec fn reply_requires(self, state: KVStoreNode) -> bool {
        &&& state.wf()
        &&& match self {
            KVStoreBody::Txn { txn, .. } => forall|i: int|
                0 <= i < txn@.len() ==> op_valid(#[trigger] txn@[i]),
            _ => true,
        }
    }

    open spec fn reply_ensures(
        self,
        pre: KVStoreNode,
        post: KVStoreNode,
        src: Seq<char>,
        reply: Option<KVStoreBody>,
    ) -> bool {
        &&& post.wf()
        &&& post.node_id == pre.node_id
        &&& post.other_node_ids == pre.other_node_ids
        &&& post.current_msg_id == pre.current_msg_id
        &&& match self {
            KVStoreBody::Txn { msg_id, txn } => {
                &&& post.kv_store@ == apply_writes(pre.kv_store@, writes_of(txn@))
                &&& post.unpropogated_writes@ == pre.unpropogated_writes@ + writes_of(txn@)
                &&& match reply {
                    Some(KVStoreBody::TxnOk { msg_id: m, in_reply_to, txn: results }) => {
                        &&& txn_answers(pre.kv_store@, txn@, results@)
                        &&& m == pre.current_msg_id
                        &&& in_reply_to == msg_id
                    },
                    _ => false,
                }
            },
            KVStoreBody::WritePropogater { write_ops, .. } => {
                &&& post.kv_store@ == apply_writes(pre.kv_store@, write_ops@)
                &&& post.pending_writes() == refresh(pre.pending_writes(), write_ops@)
                &&& reply is None
            },
            _ => {
                &&& post.kv_store == pre.kv_store
                &&& post.unpropogated_writes == pre.unpropogated_writes
                &&& reply is None
            },
        }
    }

    fn into_reply(self, node_state: &mut KVStoreNode, src: &String) -> (r: Option<Self>) {
        match self {
            KVStoreBody::Txn { msg_id, txn } => {
                let ghost pre = *node_state;
                let ghost ops = txn@;
                let txn = run_txn(
                    txn,
                    &mut node_state.kv_store,
                    &mut node_state.unpropogated_writes,
                );
                proof {
                    let w = writes_of(ops);
                    lemma_apply_concat(Map::empty(), pre.unpropogated_writes@, w);
                    lemma_apply_keeps_consistent(pre.pending_writes(), pre.kv_store@, w);
                }
                Some(
                    KVStoreBody::TxnOk {
                        msg_id: node_state.current_msg_id,
                        in_reply_to: msg_id,
                        txn,
                    },
                )
            },
            KVStoreBody::WritePropogater { write_ops, .. } => {
                let ghost pre = *node_state;
                apply_write_ops(&mut node_state.kv_store, &write_ops);
                refresh_pending(&mut node_state.unpropogated_writes, &write_ops);
                proof {
                    lemma_refresh_keeps_consistent(
                        pre.pending_writes(),
                        pre.kv_store@,
                        write_ops@,
                    );
                }
                None
            },
            _ => None,
        }
    }
}

impl Node<KVStoreBody> for KVStoreNode {
    open spec fn wf(&self) -> bool {
        KVStoreNode::wf(self)
    }

    open spec fn initial(node_metadata: NodeMetadata, state: Self) -> bool {
        &&& state.node_id == node_metadata.node_id
        &&& state.other_node_ids@ == peers_of(node_metadata.node_ids@, node_metadata.node_id@)
        &&& state.current_msg_id == 0
        &&& state.kv_store@ == Map::<usize, usize>::empty()
        &&& state.unpropogated_writes@.len() == 0
    }

    open spec fn event_requires(&self, event: Event<KVStoreBody>) -> bool {
        match event {
            Event::Message(m) => {
                &&& self.current_msg_id < usize::MAX
                &&& KVStoreBody::reply_requires(m.body, *self)
            },
            Event::PropogateWrites => true,
        }
    }

    open spec fn event_ensures(
        &self,
        event: Event<KVStoreBody>,
        post: &Self,
        sent: Seq<MaelstromMessage<KVStoreBody>>,
    ) -> bool {
        match event {
            Event::Message(m) => {
                &&& post.current_msg_id == self.current_msg_id + 1
                &&& answered(
                    m,
                    *self,
                    (KVStoreNode { current_msg_id: self.current_msg_id, ..*post }),
                    sent,
                )
            },
            Event::PropogateWrites => {
                &&& post.unpropogated_writes@.len() == 0
                &&& post.kv_store == self.kv_store
                &&& post.current_msg_id == self.current_msg_id
                &&& post.node_id == self.node_id
                &&& post.other_node_ids == self.other_node_ids
                &&& self.unpropogated_writes@.len() == 0 ==> sent.len() == 0
                &&& self.unpropogated_writes@.len() > 0 ==> sent.len()
                    == self.other_node_ids@.len()
                &&& forall|j: int|
                    0 <= j < sent.len() ==> {
                        &&& (#[trigger] sent[j]).src == self.node_id
                        &&& sent[j].dest == self.other_node_ids@[j]
                        &&& match sent[j].body {
                            KVStoreBody::WritePropogater { transaction_guid, write_ops } => {
                                &&& transaction_guid == self.current_msg_id
                                &&& write_ops@ == self.unpropogated_writes@
                            },
                            _ => false,
                        }
                    }
            },
        }
    }

    fn node_init(node_metadata: NodeMetadata) -> (r: Self) {
        let other_node_ids = other_node_ids(&node_metadata);
        KVStoreNode {
            current_msg_id: 0,
            node_id: node_metadata.node_id,
            other_node_ids,
            kv_store: HashMap::new(),
            unpropogated_writes: Vec::new(),
        }
    }

    fn handle_event(&mut self, event: Event<KVStoreBody>) -> (sent: Vec<
        MaelstromMessage<KVStoreBody>,
    >) {
        match event {
            Event::Message(message) => {
                let sent = message.reply_envelopes(self);
                self.current_msg_id = self.current_msg_id + 1;
                sent
            },
            Event::PropogateWrites => self.propagate_pending(),
        }
    }
}

} // verus!
