//! A node that hands out cluster-wide unique ids.
//!
//! An id is the node's own id, a `|`, and the node's message counter in
//! decimal. Node ids are distinct and each node's counter only grows, so no
//! two ids handed out in the cluster coincide.

use vstd::prelude::*;

use crate::init::NodeMetadata;
use crate::node::{answered, Event, MaelstromMessage, Node, Reply};

verus! {

/// The digit character of `d`, for `d < 10`.
pub open spec fn digit_char(d: nat) -> char {
    if d == 0 {
        '0'
    } else if d == 1 {
        '1'
    } else if d == 2 {
        '2'
    } else if d == 3 {
        '3'
    } else if d == 4 {
        '4'
    } else if d == 5 {
        '5'
    } else if d == 6 {
        '6'
    } else if d == 7 {
        '7'
    } else if d == 8 {
        '8'
    } else {
        '9'
    }
}

/// The decimal representation of `n`, without leading zeros.
pub open spec fn decimal(n: nat) -> Seq<char>
    decreases n,
{
    if n < 10 {
        seq![digit_char(n)]
    } else {
        decimal(n / 10).push(digit_char(n % 10))
    }
}

/// The id handed out by node `node_id` when its counter stands at `counter`.
pub open spec fn unique_id(node_id: Seq<char>, counter: nat) -> Seq<char> {
    node_id + seq!['|'] + decimal(counter)
}

proof fn lemma_decimal_shape(n: nat)
    ensures
        decimal(n).len() >= 1,
        n < 10 <==> decimal(n).len() == 1,
        forall|i: int| 0 <= i < decimal(n).len() ==> #[trigger] decimal(n)[i] != '|',
    decreases n,
{
    if n >= 10 {
        lemma_decimal_shape(n / 10);
        let d = decimal(n / 10);
        assert forall|i: int| 0 <= i < decimal(n).len() implies #[trigger] decimal(n)[i] != '|' by {
            if i < d.len() {
                assert(decimal(n)[i] == d[i]);
            }
        }
    }
}

proof fn lemma_decimal_injective(a: nat, b: nat)
    requires
        decimal(a) == decimal(b),
    ensures
        a == b,
    decreases a,
{
    lemma_decimal_shape(a);
    lemma_decimal_shape(b);
    if a >= 10 && b >= 10 {
        assert(decimal(a).drop_last() =~= decimal(a / 10));
        assert(decimal(b).drop_last() =~= decimal(b / 10));
        lemma_decimal_injective(a / 10, b / 10);
        assert(decimal(a).last() == digit_char(a % 10));
        assert(decimal(b).last() == digit_char(b % 10));
        assert(a == 10 * (a / 10) + a % 10);
        assert(b == 10 * (b / 10) + b % 10);
    } else {
        assert(decimal(a)[0] == digit_char(a));
        assert(decimal(b)[0] == digit_char(b));
    }
}

/// Distinct pairs of node id and counter give distinct ids.
pub proof fn lemma_unique_ids(a: Seq<char>, m: nat, b: Seq<char>, n: nat)
    requires
        a != b || m != n,
    ensures
        unique_id(a, m) != unique_id(b, n),
{
    lemma_decimal_shape(m);
    lemma_decimal_shape(n);
    let x = unique_id(a, m);
    let y = unique_id(b, n);
    let dm = decimal(m);
    let dn = decimal(n);
    let pa = a + seq!['|'];
    let pb = b + seq!['|'];
    assert(x == pa + dm);
    assert(y == pb + dn);
    assert(x.len() == a.len() + 1 + dm.len());
    assert(y.len() == b.len() + 1 + dn.len());
    if x == y {
        if dm.len() == dn.len() {
            assert(a.len() == b.len());
            assert(x.subrange(0, a.len() as int) =~= a);
            assert(y.subrange(0, b.len() as int) =~= b);
            assert(x.subrange(a.len() as int + 1, x.len() as int) =~= dm);
            assert(y.subrange(b.len() as int + 1, y.len() as int) =~= dn);
            lemma_decimal_injective(m, n);
        } else if dm.len() < dn.len() {
            assert(pa[a.len() as int] == '|');
            assert(x[a.len() as int] == '|');
            assert(a.len() > b.len());
            assert(y[a.len() as int] == dn[a.len() - b.len() - 1]);
        } else {
            assert(pb[b.len() as int] == '|');
            assert(y[b.len() as int] == '|');
            assert(b.len() > a.len());
            assert(x[b.len() as int] == dm[b.len() - a.len() - 1]);
        }
    }
}

/// The one-character text of digit `d`.
fn digit_str(d: usize) -> (r: &'static str)
    requires
        d < 10,
    ensures
        r@ == seq![digit_char(d as nat)],
{
    if d == 0 {
        proof { reveal_strlit("0"); }
        "0"
    } else if d == 1 {
        proof { reveal_strlit("1"); }
        "1"
    } else if d == 2 {
        proof { reveal_strlit("2"); }
        "2"
    } else if d == 3 {
        proof { reveal_strlit("3"); }
        "3"
    } else if d == 4 {
        proof { reveal_strlit("4"); }
        "4"
    } else if d == 5 {
        proof { reveal_strlit("5"); }
        "5"
    } else if d == 6 {
        proof { reveal_strlit("6"); }
        "6"
    } else if d == 7 {
        proof { reveal_strlit("7"); }
        "7"
    } else if d == 8 {
        proof { reveal_strlit("8"); }
        "8"
    } else {
        proof { reveal_strlit("9"); }
        "9"
    }
}

/// Appends the decimal representation of `n` to `s`.
fn push_decimal(s: &mut String, n: usize)
    ensures
        final(s)@ == old(s)@ + decimal(n as nat),
    decreases n,
{
    if n >= 10 {
        push_decimal(s, n / 10);
    }
    s.append(digit_str(n % 10));
    assert(final(s)@ =~= old(s)@ + decimal(n as nat));
}

/// The id that node `node_id` hands out when its counter stands at `counter`.
pub fn generate_id(node_id: &String, counter: usize) -> (r: String)
    ensures
        r@ == unique_id(node_id@, counter as nat),
{
    let mut s = node_id.clone();
    proof { reveal_strlit("|"); }
    s.append("|");
    push_decimal(&mut s, counter);
    assert(s@ =~= unique_id(node_id@, counter as nat));
    s
}

/// State of an id-generating node.
#[derive(Clone, Debug, PartialEq, Eq)]
pub struct GenerateGuidNode {
    pub current_msg_id: usize,
    pub node_id: String,
}

/// Payloads of the id-generation protocol.
#[derive(Clone, Debug, PartialEq, Eq)]
pub enum GenerateGuidBody {
    Generate { msg_id: usize },
    GenerateOk { id: String, msg_id: usize, in_reply_to: usize },
}

impl Reply<GenerateGuidNode> for GenerateGuidBody {
    open spec fn reply_requires(self, state: GenerateGuidNode) -> bool {
        true
    }

    open spec fn reply_ensures(
        self,
        pre: GenerateGuidNode,
        post: GenerateGuidNode,
        src: Seq<char>,
        reply: Option<GenerateGuidBody>,
    ) -> bool {
        &&& post == pre
        &&& match self {
            GenerateGuidBody::Generate { msg_id } => match reply {
                Some(GenerateGuidBody::GenerateOk { id, msg_id: m, in_reply_to }) => {
                    &&& id@ == unique_id(pre.node_id@, pre.current_msg_id as nat)
                    &&& m == pre.current_msg_id
                    &&& in_reply_to == msg_id
                },
                _ => false,
            },
            _ => reply is None,
        }
    }

    fn into_reply(self, node_state: &mut GenerateGuidNode, src: &String) -> (r: Option<Self>) {
        match self {
            GenerateGuidBody::Generate { msg_id } => {
                let id = generate_id(&node_state.node_id, node_state.current_msg_id);
                Some(
                    GenerateGuidBody::GenerateOk {
                        id,
                        msg_id: node_state.current_msg_id,
                        in_reply_to: msg_id,
                    },
                )
            },
            _ => None,
        }
    }
}

impl Node<GenerateGuidBody> for GenerateGuidNode {
    open spec fn wf(&self) -> bool {
        true
    }

    open spec fn initial(node_metadata: NodeMetadata, state: Self) -> bool {
        &&& state.current_msg_id == 0
        &&& state.node_id == node_metadata.node_id
    }

    open spec fn event_requires(&self, event: Event<GenerateGuidBody>) -> bool {
        event is Message ==> self.current_msg_id < usize::MAX
    }

    open spec fn event_ensures(
        &self,
        event: Event<GenerateGuidBody>,
        post: &Self,
        sent: Seq<MaelstromMessage<GenerateGuidBody>>,
    ) -> bool {
        match event {
            Event::Message(m) => {
                &&& post.current_msg_id == self.current_msg_id + 1
                &&& post.node_id == self.node_id
                &&& answered(m, *self, *self, sent)
            },
            Event::PropogateWrites => *post == *self && sent.len() == 0,
        }
    }

    fn node_init(node_metadata: NodeMetadata) -> (r: Self) {
        GenerateGuidNode { current_msg_id: 0, node_id: node_metadata.node_id }
    }

    fn handle_event(&mut self, event: Event<GenerateGuidBody>) -> (sent: Vec<
        MaelstromMessage<GenerateGuidBody>,
    >) {
        match event {
            Event::Message(message) => {
                let sent = message.reply_envelopes(self);
                self.current_msg_id = self.current_msg_id + 1;
                sent
            },
            Event::PropogateWrites => Vec::new(),
        }
    }
}

} // verus!
