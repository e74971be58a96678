//! The startup handshake: the first message gives a node its identity.

use vstd::prelude::*;

verus! {

/// A node's identity: its own id and the ids of the whole cluster.
#[derive(Clone, Debug, PartialEq, Eq)]
pub struct NodeMetadata {
    pub node_id: String,
    pub node_ids: Vec<String>,
}

/// Payloads of the handshake.
#[derive(Clone, Debug, PartialEq, Eq)]
pub enum InitBody {
    Init { msg_id: usize, node_id: String, node_ids: Vec<String> },
    InitOk { in_reply_to: usize },
}

impl InitBody {
    /// The acknowledgement of an `Init`.
    pub fn into_reply(self) -> (r: InitBody)
        requires
            self is Init,
        ensures
            r == (InitBody::InitOk { in_reply_to: self->Init_msg_id }),
    {
        match self {
            InitBody::Init { msg_id, .. } => InitBody::InitOk { in_reply_to: msg_id },
            InitBody::InitOk { .. } => {
                proof {
                    assert(false);
                }
                self
            },
        }
    }
}

/// The envelope of a handshake message.
#[derive(Clone, Debug, PartialEq, Eq)]
pub struct MaelstromInit {
    pub src: String,
    pub dest: String,
    pub body: InitBody,
}

impl MaelstromInit {
    /// Given the first message a node receives, which must be an `Init`, gives
    /// the acknowledgement to send back and the identity the message assigns.
    pub fn init_node(self) -> (r: (MaelstromInit, NodeMetadata))
        requires
            self.body is Init,
        ensures
            r.0.src == self.dest,
            r.0.dest == self.src,
            r.0.body == (InitBody::InitOk { in_reply_to: self.body->Init_msg_id }),
            r.1.node_id == self.body->Init_node_id,
            r.1.node_ids == self.body->Init_node_ids,
    {
        let MaelstromInit { src, dest, body } = self;
        match body {
            InitBody::Init { msg_id, node_id, node_ids } => {
                let reply = MaelstromInit {
                    src: dest,
                    dest: src,
                    body: InitBody::InitOk { in_reply_to: msg_id },
                };
                (reply, NodeMetadata { node_id, node_ids })
            },
            InitBody::InitOk { .. } => {
                proof {
                    assert(false);
                }
                (MaelstromInit { src: dest, dest: src, body }, NodeMetadata {
                    node_id: String::new(),
                    node_ids: Vec::new(),
                })
            },
        }
    }
}

} // verus!
