//! A single payload type that serves the handshake, echo, ids and key-value
//! transactions from one node, propagating each transaction's writes to the
//! peers right after its reply.

use vstd::prelude::*;

use crate::generate_id::{generate_id, unique_id};
use std::collections::HashMap;

use crate::keyed::lookup;
use crate::kv_store::{
    apply_write_ops, apply_writes, is_kind, is_read, is_write, lemma_refresh_keeps_consistent,
    op_valid, refresh, refresh_pending, run_txn, txn_answers, writes_of, KVStoreNode, TxnOp,
};
use crate::node::{MaelstromMessage, Reply};

verus! {

/// Payloads of the combined protocol.
#[derive(Clone, Debug, PartialEq, Eq)]
pub enum Body {
    Init { msg_id: usize, node_id: String, node_ids: Vec<String> },
    InitOk { in_reply_to: usize },
    Echo { msg_id: usize, echo: String },
    EchoOk { msg_id: usize, in_reply_to: usize, echo: String },
    Generate { msg_id: usize },
    GenerateOk { id: String, msg_id: usize, in_reply_to: usize },
    Txn { msg_id: usize, txn: Vec<TxnOp> },
    TxnOk { msg_id: usize, in_reply_to: usize, txn: Vec<TxnOp> },
    WritePropogate { transaction_guid: usize, write_ops: Vec<(usize, usize)> },
    AckWritePropogate {},
}

/// Every write among `ops` carries its value.
pub open spec fn writes_carry_values(ops: Seq<TxnOp>) -> bool {
    forall|i: int| 0 <= i < ops.len() ==> is_write((#[trigger] ops[i]).0@) ==> ops[i].2 is Some
}

/// The writes a reply body makes the peers apply: those of a `TxnOk`.
pub open spec fn propagated_writes(b: Body) -> Seq<(usize, usize)> {
    match b {
        Body::TxnOk { txn, .. } => writes_of(txn@),
        _ => Seq::empty(),
    }
}

/// Runs one operation on `kv_store`: a read gives the value found, a write
/// stores its value.
pub fn key_value_crud(rw_op: TxnOp, kv_store: &mut HashMap<usize, usize>) -> (r: TxnOp)
    requires
        op_valid(rw_op),
    ensures
        r.0 == rw_op.0,
        r.1 == rw_op.1,
        is_read(rw_op.0@) ==> final(kv_store)@ == old(kv_store)@ && r.2 == lookup(
            old(kv_store)@,
            rw_op.1,
        ),
        !is_read(rw_op.0@) ==> final(kv_store)@ == old(kv_store)@.insert(
            rw_op.1,
            rw_op.2->Some_0,
        ) && r.2 == rw_op.2,
{
    let (operation, key, value) = rw_op;
    if is_kind(&operation, 'r') {
        let read_value = match kv_store.get(&key) {
            Some(v) => Some(*v),
            None => None,
        };
        (operation, key, read_value)
    } else {
        let written = match value {
            Some(v) => v,
            None => {
                proof {
                    assert(false);
                }
                0
            },
        };
        kv_store.insert(key, written);
        (operation, key, value)
    }
}

impl Body {
    /// For a `TxnOk` with writes, the message that carries those writes to a
    /// peer, tagged with the node's current message id.
    pub fn propogate_kv_writes(&self, node_state: &KVStoreNode) -> (r: Option<Body>)
        requires
            self is TxnOk ==> writes_carry_values(self->TxnOk_txn@),
        ensures
            propagated_writes(*self).len() == 0 ==> r is None,
            propagated_writes(*self).len() > 0 ==> match r {
                Some(Body::WritePropogate { transaction_guid, write_ops }) => {
                    &&& transaction_guid == node_state.current_msg_id
                    &&& write_ops@ == propagated_writes(*self)
                },
                _ => false,
            },
    {
        match self {
            Body::TxnOk { txn, .. } => {
                let mut write_ops: Vec<(usize, usize)> = Vec::new();
                let mut i: usize = 0;
                while i < txn.len()
                    invariant
                        i <= txn@.len(),
                        writes_carry_values(txn@),
                        write_ops@ == writes_of(txn@.take(i as int)),
                    decreases txn@.len() - i,
                {
                    assert(txn@.take(i + 1).drop_last() =~= txn@.take(i as int));
                    assert(txn@.take(i + 1).last() == txn@[i as int]);
                    if is_kind(&txn[i].0, 'w') {
                        let value = match txn[i].2 {
                            Some(v) => v,
                            None => {
                                proof {
                                    assert(false);
                                }
                                0
                            },
                        };
                        write_ops.push((txn[i].1, value));
                    }
                    i = i + 1;
                }
                assert(txn@.take(txn@.len() as int) =~= txn@);
                if write_ops.len() > 0 {
                    Some(
                        Body::WritePropogate {
                            transaction_guid: node_state.current_msg_id,
                            write_ops,
                        },
                    )
                } else {
                    None
                }
            },
            _ => None,
        }
    }
}

impl Reply<KVStoreNode> for Body {
    open spec fn reply_requires(self, state: KVStoreNode) -> bool {
        &&& state.wf()
        &&& match self {
            Body::Txn { txn, .. } => forall|i: int|
                0 <= i < txn@.len() ==> op_valid(#[trigger] txn@[i]),
            _ => true,
        }
    }

    open spec fn reply_ensures(
        self,
        pre: KVStoreNode,
        post: KVStoreNode,
        src: Seq<char>,
        reply: Option<Body>,
    ) -> bool {
        &&& post.node_id == pre.node_id
        &&& post.other_node_ids == pre.other_node_ids
        &&& post.current_msg_id == pre.current_msg_id
        &&& post.wf()
        &&& match self {
            Body::Init { msg_id, .. } => {
                &&& post.unpropogated_writes == pre.unpropogated_writes
                &&& post.kv_store == pre.kv_store
                &&& reply == Some(Body::InitOk { in_reply_to: msg_id })
            },
            Body::Echo { msg_id, echo } => {
                &&& post.unpropogated_writes == pre.unpropogated_writes
                &&& post.kv_store == pre.kv_store
                &&& reply == Some(
                    Body::EchoOk { msg_id: pre.current_msg_id, in_reply_to: msg_id, echo },
                )
            },
            Body::Generate { msg_id } => {
                &&& post.unpropogated_writes == pre.unpropogated_writes
                &&& post.kv_store == pre.kv_store
                &&& match reply {
                    Some(Body::GenerateOk { id, msg_id: m, in_reply_to }) => {
                        &&& id@ == unique_id(pre.node_id@, pre.current_msg_id as nat)
                        &&& m == pre.current_msg_id
                        &&& in_reply_to == msg_id
                    },
                    _ => false,
                }
            },
            Body::Txn { msg_id, txn } => {
                &&& post.kv_store@ == apply_writes(pre.kv_store@, writes_of(txn@))
                &&& post.pending_writes() == refresh(pre.pending_writes(), writes_of(txn@))
                &&& match reply {
                    Some(Body::TxnOk { msg_id: m, in_reply_to, txn: results }) => {
                        &&& txn_answers(pre.kv_store@, txn@, results@)
                        &&& m == pre.current_msg_id
                        &&& in_reply_to == msg_id
                    },
                    _ => false,
                }
            },
            Body::WritePropogate { write_ops, .. } => {
                &&& post.kv_store@ == apply_writes(pre.kv_store@, write_ops@)
                &&& post.pending_writes() == refresh(pre.pending_writes(), write_ops@)
                &&& reply is None
            },
            _ => {
                &&& post.unpropogated_writes == pre.unpropogated_writes
                &&& post.kv_store == pre.kv_store
                &&& reply is None
            },
        }
    }

    fn into_reply(self, node_state: &mut KVStoreNode, src: &String) -> (r: Option<Body>) {
        match self {
            Body::Init { msg_id, .. } => Some(Body::InitOk { in_reply_to: msg_id }),
            Body::Echo { msg_id, echo } => Some(
                Body::EchoOk { msg_id: node_state.current_msg_id, in_reply_to: msg_id, echo },
            ),
            Body::Generate { msg_id } => {
                let id = generate_id(&node_state.node_id, node_state.current_msg_id);
                Some(Body::GenerateOk { id, msg_id: node_state.current_msg_id, in_reply_to: msg_id })
            },
            Body::Txn { msg_id, txn } => {
                // These writes reach the peers through `propogate_kv_writes`;
                // the pending log only takes them for keys already pending.
                let ghost pre = *node_state;
                let mut written: Vec<(usize, usize)> = Vec::new();
                let ghost ops = txn@;
                let txn = run_txn(txn, &mut node_state.kv_store, &mut written);
                assert(written@ =~= writes_of(ops));
                refresh_pending(&mut node_state.unpropogated_writes, &written);
                proof {
                    lemma_refresh_keeps_consistent(
                        pre.pending_writes(),
                        pre.kv_store@,
                        writes_of(ops),
                    );
                }
                Some(Body::TxnOk { msg_id: node_state.current_msg_id, in_reply_to: msg_id, txn })
            },
            Body::WritePropogate { write_ops, .. } => {
                let ghost pre = *node_state;
                apply_write_ops(&mut node_state.kv_store, &write_ops);
                refresh_pending(&mut node_state.unpropogated_writes, &write_ops);
                proof {
                    lemma_refresh_keeps_consistent(pre.pending_writes(), pre.kv_store@, write_ops@);
                }
                None
            },
            _ => None,
        }
    }
}

impl MaelstromMessage<Body> {
    /// Answers this message from `node_state`. Where there is a reply, the
    /// envelopes are the reply, back to the sender, then for a transaction
    /// with writes one message per peer carrying those writes. The node's
    /// message id moves on by one for every message answered.
    pub fn reply(self, node_state: &mut KVStoreNode) -> (sent: Vec<MaelstromMessage<Body>>)
        requires
            Body::reply_requires(self.body, *old(node_state)),
            old(node_state).current_msg_id < usize::MAX,
        ensures
            final(node_state).current_msg_id == old(node_state).current_msg_id + 1,
            sent@.len() == 0 ==> Body::reply_ensures(
                self.body,
                *old(node_state),
                (KVStoreNode { current_msg_id: old(node_state).current_msg_id, ..*final(node_state) }),
                self.src@,
                None,
            ),
            sent@.len() > 0 ==> {
                &&& sent@[0].src == self.dest
                &&& sent@[0].dest == self.src
                &&& Body::reply_ensures(
                    self.body,
                    *old(node_state),
                    (KVStoreNode { current_msg_id: old(node_state).current_msg_id, ..*final(node_state) }),
                    self.src@,
                    Some(sent@[0].body),
                )
                &&& propagated_writes(sent@[0].body).len() == 0 ==> sent@.len() == 1
                &&& propagated_writes(sent@[0].body).len() > 0 ==> {
                    &&& sent@.len() == 1 + old(node_state).other_node_ids@.len()
                    &&& forall|j: int|
                        1 <= j < sent@.len() ==> {
                            &&& (#[trigger] sent@[j]).src == old(node_state).node_id
                            &&& sent@[j].dest == old(node_state).other_node_ids@[j - 1]
                            &&& match sent@[j].body {
                                Body::WritePropogate { transaction_guid, write_ops } => {
                                    &&& transaction_guid == old(node_state).current_msg_id
                                    &&& write_ops@ == propagated_writes(sent@[0].body)
                                },
                                _ => false,
                            }
                        }
                }
            },
    {
        let MaelstromMessage { src, dest, body } = self;
        let mut sent: Vec<MaelstromMessage<Body>> = Vec::new();
        let reply_body = body.into_reply(node_state, &src);
        if let Some(reply_body) = reply_body {
            proof {
                if reply_body is TxnOk {
                    let ops = body->Txn_txn@;
                    let res = reply_body->TxnOk_txn@;
                    assert forall|i: int| 0 <= i < res.len() && is_write((#[trigger] res[i]).0@) implies res[i].2 is Some by {
                        assert(op_valid(ops[i]));
                        assert(seq!['r'][0] != seq!['w'][0]);
                    }
                }
            }
            let extra = reply_body.propogate_kv_writes(node_state);
            let ghost first = reply_body;
            let ghost mid = *node_state;
            let ghost src0 = src;
            let ghost dest0 = dest;
            sent.push(MaelstromMessage { src: dest, dest: src, body: reply_body });
            if let Some(Body::WritePropogate { transaction_guid, write_ops }) = extra {
                let mut i: usize = 0;
                while i < node_state.other_node_ids.len()
                    invariant
                        i <= node_state.other_node_ids@.len(),
                        sent@.len() == 1 + i,
                        sent@[0].body == first,
                        sent@[0].src == dest0,
                        sent@[0].dest == src0,
                        write_ops@ == propagated_writes(first),
                        transaction_guid == old(node_state).current_msg_id,
                        node_state.node_id == old(node_state).node_id,
                        node_state.other_node_ids == old(node_state).other_node_ids,
                        node_state.current_msg_id == old(node_state).current_msg_id,
                        node_state.kv_store == mid.kv_store,
                        node_state.unpropogated_writes == mid.unpropogated_writes,
                        forall|j: int|
                            1 <= j < sent@.len() ==> {
                                &&& (#[trigger] sent@[j]).src == node_state.node_id
                                &&& sent@[j].dest == node_state.other_node_ids@[j - 1]
                                &&& match sent@[j].body {
                                    Body::WritePropogate { transaction_guid: g, write_ops: w } => {
                                        &&& g == transaction_guid
                                        &&& w@ == write_ops@
                                    },
                                    _ => false,
                                }
                            },
                    decreases node_state.other_node_ids@.len() - i,
                {
                    let m = MaelstromMessage {
                        src: node_state.node_id.clone(),
                        dest: node_state.other_node_ids[i].clone(),
                        body: Body::WritePropogate {
                            transaction_guid,
                            write_ops: crate::kv_store::copy_writes(&write_ops),
                        },
                    };
                    sent.push(m);
                    i = i + 1;
                }
            }
        }
        node_state.current_msg_id = node_state.current_msg_id + 1;
        sent
    }
}

} // verus!
