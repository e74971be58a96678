//! A node that answers each echo request with the text it was sent.

use vstd::prelude::*;

use crate::init::NodeMetadata;
use crate::node::{answered, Event, MaelstromMessage, Node, Reply};

verus! {

/// State of an echo node: the id of its next outbound message.
#[derive(Clone, Debug, PartialEq, Eq)]
pub struct EchoNode {
    pub current_msg_id: usize,
}

/// Payloads of the echo protocol.
#[derive(Clone, Debug, PartialEq, Eq)]
pub enum EchoBody {
    Echo { msg_id: usize, echo: String },
    EchoOk { msg_id: usize, in_reply_to: usize, echo: String },
}

impl Reply<EchoNode> for EchoBody {
    open spec fn reply_requires(self, state: EchoNode) -> bool {
        true
    }

    open spec fn reply_ensures(
        self,
        pre: EchoNode,
        post: EchoNode,
        src: Seq<char>,
        reply: Option<EchoBody>,
    ) -> bool {
        &&& post == pre
        &&& reply == match self {
            EchoBody::Echo { msg_id, echo } => Some(
                EchoBody::EchoOk { msg_id: pre.current_msg_id, in_reply_to: msg_id, echo },
            ),
            _ => None,
        }
    }

    fn into_reply(self, echo_node: &mut EchoNode, src: &String) -> (r: Option<EchoBody>) {
        match self {
            EchoBody::Echo { msg_id, echo } => Some(
                EchoBody::EchoOk { msg_id: echo_node.current_msg_id, in_reply_to: msg_id, echo },
            ),
            _ => None,
        }
    }
}

impl Node<EchoBody> for EchoNode {
    open spec fn wf(&self) -> bool {
        true
    }

    open spec fn initial(node_metadata: NodeMetadata, state: Self) -> bool {
        state.current_msg_id == 0
    }

    open spec fn event_requires(&self, event: Event<EchoBody>) -> bool {
        event is Message ==> self.current_msg_id < usize::MAX
    }

    open spec fn event_ensures(
        &self,
        event: Event<EchoBody>,
        post: &Self,
        sent: Seq<MaelstromMessage<EchoBody>>,
    ) -> bool {
        match event {
            Event::Message(m) => {
                &&& post.current_msg_id == self.current_msg_id + 1
                &&& answered(m, *self, *self, sent)
            },
            Event::PropogateWrites => *post == *self && sent.len() == 0,
        }
    }

    fn node_init(node_metadata: NodeMetadata) -> (r: Self) {
        EchoNode { current_msg_id: 0 }
    }

    fn handle_event(&mut self, event: Event<EchoBody>) -> (sent: Vec<MaelstromMessage<EchoBody>>) {
        match event {
            Event::Message(message) => {
                let sent = message.reply_envelopes(self);
                self.current_msg_id = self.current_msg_id + 1;
                sent
            },
            Event::PropogateWrites => Vec::new(),
        }
    }
}

} // verus!
