//! The message envelope, the events a node reacts to, and the two interfaces
//! that every protocol implements.

use vstd::prelude::*;

use crate::init::NodeMetadata;

verus! {

/// A message on the transport: who sent it, to whom, and its payload.
#[derive(Clone, Debug, PartialEq, Eq)]
pub struct MaelstromMessage<Body> {
    pub src: String,
    pub dest: String,
    pub body: Body,
}

/// What a node reacts to: an inbound message, or the periodic signal that
/// triggers a round of propagation.
#[derive(Clone, Debug, PartialEq, Eq)]
pub enum Event<Body> {
    Message(MaelstromMessage<Body>),
    PropogateWrites,
}

/// A payload type that answers inbound messages against a node state.
pub trait Reply<NodeState>: Sized {
    /// The inputs on which answering is defined; outside them the request
    /// violates the protocol.
    spec fn reply_requires(self, state: NodeState) -> bool;

    /// How answering `self`, sent by `src`, relates the state before, the
    /// state after, and the reply.
    spec fn reply_ensures(
        self,
        pre: NodeState,
        post: NodeState,
        src: Seq<char>,
        reply: Option<Self>,
    ) -> bool;

    /// Consumes the payload, updates the state, and gives the reply if there is one.
    fn into_reply(self, node_state: &mut NodeState, src: &String) -> (r: Option<Self>)
        requires
            Self::reply_requires(self, *old(node_state)),
        ensures
            Self::reply_ensures(self, *old(node_state), *final(node_state), src@, r),
    ;
}

/// A node state that reacts to events by returning the envelopes to send.
pub trait Node<Body>: Sized {
    /// The state's internal invariant.
    spec fn wf(&self) -> bool;

    /// The state a node starts in, given its identity.
    spec fn initial(node_metadata: NodeMetadata, state: Self) -> bool;

    /// The events on which reacting is defined.
    spec fn event_requires(&self, event: Event<Body>) -> bool;

    /// How reacting to `event` relates the state before, the state after, and
    /// the envelopes sent, in order.
    spec fn event_ensures(
        &self,
        event: Event<Body>,
        post: &Self,
        sent: Seq<MaelstromMessage<Body>>,
    ) -> bool;

    fn node_init(node_metadata: NodeMetadata) -> (r: Self)
        ensures
            r.wf(),
            Self::initial(node_metadata, r),
    ;

    fn handle_event(&mut self, event: Event<Body>) -> (sent: Vec<MaelstromMessage<Body>>)
        requires
            old(self).wf(),
            old(self).event_requires(event),
        ensures
            final(self).wf(),
            old(self).event_ensures(event, final(self), sent@),
    ;
}

/// The outcome of answering message `m` from state `pre`: `sent` is empty
/// where there is no reply, else the reply addressed back to the sender.
pub open spec fn answered<NodeState, Body: Reply<NodeState>>(
    m: MaelstromMessage<Body>,
    pre: NodeState,
    post: NodeState,
    sent: Seq<MaelstromMessage<Body>>,
) -> bool {
    &&& sent.len() <= 1
    &&& sent.len() == 0 ==> Body::reply_ensures(m.body, pre, post, m.src@, None)
    &&& sent.len() == 1 ==> {
        &&& sent[0].src == m.dest
        &&& sent[0].dest == m.src
        &&& Body::reply_ensures(m.body, pre, post, m.src@, Some(sent[0].body))
    }
}

impl<Body> MaelstromMessage<Body> {
    /// Answers this message from `node_state`, giving the reply envelope, from
    /// this message's destination back to its source, if there is a reply.
    pub fn message_reply<NodeState>(self, node_state: &mut NodeState) -> (r: Option<
        MaelstromMessage<Body>,
    >) where Body: Reply<NodeState>
        requires
            Body::reply_requires(self.body, *old(node_state)),
        ensures
            answered(
                self,
                *old(node_state),
                *final(node_state),
                match r {
                    Some(m) => seq![m],
                    None => Seq::empty(),
                },
            ),
    {
        let MaelstromMessage { src, dest, body } = self;
        let reply_body = body.into_reply(node_state, &src);
        match reply_body {
            Some(b) => {
                let m = MaelstromMessage { src: dest, dest: src, body: b };
                assert(seq![m][0] == m);
                Some(m)
            },
            None => None,
        }
    }

    /// The reply to this message, from `state`, as a list of envelopes to send.
    pub fn reply_envelopes<NodeState>(self, node_state: &mut NodeState) -> (sent: Vec<
        MaelstromMessage<Body>,
    >) where Body: Reply<NodeState>
        requires
            Body::reply_requires(self.body, *old(node_state)),
        ensures
            answered(self, *old(node_state), *final(node_state), sent@),
    {
        let mut sent: Vec<MaelstromMessage<Body>> = Vec::new();
        match self.message_reply(node_state) {
            Some(r) => {
                sent.push(r);
                assert(sent@ =~= seq![r]);
            },
            None => {
                assert(sent@ =~= Seq::<MaelstromMessage<Body>>::empty());
            },
        }
        sent
    }
}

/// The ids of `ids` other than `me`, in order.
pub open spec fn peers_of(ids: Seq<String>, me: Seq<char>) -> Seq<String>
    decreases ids.len(),
{
    if ids.len() == 0 {
        Seq::empty()
    } else if ids.last()@ == me {
        peers_of(ids.drop_last(), me)
    } else {
        peers_of(ids.drop_last(), me).push(ids.last())
    }
}

/// Every node of the cluster but this one, in the order given.
pub fn other_node_ids(node_metadata: &NodeMetadata) -> (r: Vec<String>)
    ensures
        r@ == peers_of(node_metadata.node_ids@, node_metadata.node_id@),
{
    let ids = &node_metadata.node_ids;
    let mut r: Vec<String> = Vec::new();
    let mut i: usize = 0;
    while i < ids.len()
        invariant
            i <= ids@.len(),
            r@ == peers_of(ids@.take(i as int), node_metadata.node_id@),
        decreases ids@.len() - i,
    {
        assert(ids@.take(i + 1).drop_last() =~= ids@.take(i as int));
        if ids[i] != node_metadata.node_id {
            r.push(ids[i].clone());
        }
        i = i + 1;
    }
    assert(ids@.take(ids@.len() as int) =~= ids@);
    r
}

} // verus!
