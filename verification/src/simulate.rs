//! The call simulator's decisions, modeled as pure functions.
//!
//! The bytecode-execution engine itself is an external collaborator: it
//! takes code, storage, a gas budget and an initial operand stack, and
//! yields a final stack plus an ordered list of output actions. Everything
//! the simulator decides around that call is here: the fixed header
//! constants of the synthetic invocation, the operand stack's exact layout,
//! the call-type selector, which output actions are outbound messages (the
//! engine emits them in reverse production order, so they are reversed),
//! and how the accessor's reply is found among them by its leading selector.

use vstd::prelude::*;

use crate::errors::SimError;
use crate::numeric::be_value;

verus! {

broadcast use vstd::std_specs::vec::group_vec_axioms, vstd::seq::group_seq_axioms;

/// Synthetic contract balance handed to the engine: a large fixed constant
/// standing in for "sufficient funds" (100 whole tokens of 10^9 units).
pub const CONTRACT_BALANCE: u64 = 100_000_000_000;

/// Fixed gas ceiling: effectively unconstrained for a read-only call.
pub const GAS_LIMIT: u64 = 1_000_000_000;

/// Logical-time header value of the synthetic call: a placeholder, not real
/// chain time.
pub const HEADER_TIME: u64 = 1;

/// Expiration header value of the synthetic call, chosen so the accessor
/// never sees an expired call.
pub const HEADER_EXPIRE: u32 = 1000;

/// The kind of a chain message.
#[derive(Debug, Clone, Copy, PartialEq, Eq, Structural)]
pub enum MessageKind {
    Internal,
    ExternalInbound,
    ExternalOutbound,
}

/// An outbound message read from the engine's output actions: its kind and
/// its body, if any. A reply body starts with the 32-bit reply selector.
#[derive(Debug, Clone, PartialEq, Eq)]
pub struct OutboundMessage {
    pub kind: MessageKind,
    pub body: Option<Vec<u8>>,
}

/// Ghost mirror of `OutboundMessage`.
pub struct MessageModel {
    pub kind: MessageKind,
    pub body: Option<Seq<u8>>,
}

impl DeepView for OutboundMessage {
    type V = MessageModel;

    open spec fn deep_view(&self) -> MessageModel {
        MessageModel {
            kind: self.kind,
            body: match self.body {
                Some(ref b) => Some(b@),
                None => None,
            },
        }
    }
}

/// An output action of the engine: a send-message action carrying an
/// outbound message, or anything else.
#[derive(Debug, Clone, PartialEq, Eq)]
pub enum OutputAction {
    SendMessage(OutboundMessage),
    Other,
}

/// Ghost mirror of `OutputAction`.
pub enum ActionModel {
    SendMessage(MessageModel),
    Other,
}

impl DeepView for OutputAction {
    type V = ActionModel;

    open spec fn deep_view(&self) -> ActionModel {
        match self {
            OutputAction::SendMessage(m) => ActionModel::SendMessage(m.deep_view()),
            OutputAction::Other => ActionModel::Other,
        }
    }
}

/// One entry of the engine's initial operand stack.
#[derive(Debug, Clone, PartialEq, Eq)]
pub enum StackEntry {
    Int(i64),
    Cell(Vec<u8>),
    Slice(Vec<u8>),
}

/// Ghost mirror of `StackEntry`.
pub enum StackSlot {
    Int(int),
    Cell(Seq<u8>),
    Slice(Seq<u8>),
}

impl DeepView for StackEntry {
    type V = StackSlot;

    open spec fn deep_view(&self) -> StackSlot {
        match self {
            StackEntry::Int(v) => StackSlot::Int(*v as int),
            StackEntry::Cell(b) => StackSlot::Cell(b@),
            StackEntry::Slice(b) => StackSlot::Slice(b@),
        }
    }
}

/// The call-type selector the engine expects on top of the stack: 0 for an
/// internal call, -1 for an external inbound call. The engine's own
/// outbound kind cannot be simulated.
pub open spec fn selector_for(kind: MessageKind) -> Result<i64, SimError> {
    match kind {
        MessageKind::Internal => Ok(0),
        MessageKind::ExternalInbound => Ok(-1i64),
        MessageKind::ExternalOutbound => Err(SimError::InvalidMessageType),
    }
}

/// Picks the engine's call-type selector for a message kind.
pub fn message_function_selector(kind: MessageKind) -> (r: Result<i64, SimError>)
    ensures
        r == selector_for(kind),
{
    match kind {
        MessageKind::Internal => Ok(0),
        MessageKind::ExternalInbound => Ok(-1),
        MessageKind::ExternalOutbound => Err(SimError::InvalidMessageType),
    }
}

/// The engine's initial operand stack for one simulated call, bottom to
/// top: the synthetic contract balance, the incoming message value (zero),
/// the serialized message, the message body, and the call-type selector.
pub open spec fn call_stack(msg_cell: Seq<u8>, body: Seq<u8>, sel: int) -> Seq<StackSlot> {
    seq![
        StackSlot::Int(CONTRACT_BALANCE as int),
        StackSlot::Int(0),
        StackSlot::Cell(msg_cell),
        StackSlot::Slice(body),
        StackSlot::Int(sel),
    ]
}

/// Assembles the initial operand stack for a simulated call of the given
/// kind. Fails exactly on the outbound message kind, which cannot be
/// simulated.
pub fn build_call_stack(msg_cell: Vec<u8>, body: Vec<u8>, kind: MessageKind) -> (r: Result<
    Vec<StackEntry>,
    SimError,
>)
    ensures
        r matches Ok(st) ==> selector_for(kind) is Ok && st.deep_view() == call_stack(
            msg_cell@,
            body@,
            selector_for(kind)->Ok_0 as int,
        ),
        r matches Err(e) ==> selector_for(kind) == Err::<i64, SimError>(e),
{
    let sel = match message_function_selector(kind) {
        Ok(s) => s,
        Err(e) => {
            return Err(e);
        },
    };
    let ghost mc = msg_cell@;
    let ghost bd = body@;
    let mut st: Vec<StackEntry> = Vec::new();
    st.push(StackEntry::Int(CONTRACT_BALANCE as i64));
    st.push(StackEntry::Int(0));
    st.push(StackEntry::Cell(msg_cell));
    st.push(StackEntry::Slice(body));
    st.push(StackEntry::Int(sel));
    proof {
        assert(st.deep_view() =~= call_stack(mc, bd, sel as int));
    }
    Ok(st)
}

/// The outbound messages among the output actions, in the order the engine
/// listed them.
pub open spec fn send_messages(s: Seq<ActionModel>) -> Seq<MessageModel>
    decreases s,
{
    if s.len() == 0 {
        Seq::empty()
    } else {
        match s.last() {
            ActionModel::SendMessage(m) => send_messages(s.drop_last()).push(m),
            ActionModel::Other => send_messages(s.drop_last()),
        }
    }
}

/// Reads the outbound messages out of the engine's output actions and
/// reverses them: the engine emits them in reverse production order, so the
/// result is in call order.
#[verifier::loop_isolation(false)]
pub fn collect_outbound_messages(actions: Vec<OutputAction>) -> (r: Vec<OutboundMessage>)
    ensures
        r.deep_view() == send_messages(actions.deep_view()).reverse(),
{
    let ghost va = actions.deep_view();
    let mut picked: Vec<OutboundMessage> = Vec::new();
    let mut i: usize = 0;
    proof {
        assert(va.take(0) =~= Seq::<ActionModel>::empty());
        assert(picked.deep_view() =~= Seq::<MessageModel>::empty());
    }
    while i < actions.len()
        invariant
            i <= actions@.len(),
            va.len() == actions@.len(),
            picked.deep_view() == send_messages(va.take(i as int)),
        decreases actions@.len() - i,
    {
        proof {
            assert(va.take(i as int + 1).drop_last() =~= va.take(i as int));
            assert(va.take(i as int + 1).last() == va[i as int]);
            assert(va[i as int] == actions@[i as int].deep_view());
        }
        match &actions[i] {
            OutputAction::SendMessage(m) => {
                let ghost prev = picked.deep_view();
                let copied = OutboundMessage {
                    kind: m.kind,
                    body: match &m.body {
                        Some(b) => Some(crate::numeric::clone_bytes(b)),
                        None => None,
                    },
                };
                proof {
                    assert(copied.deep_view() == m.deep_view());
                }
                picked.push(copied);
                proof {
                    assert(picked.deep_view() =~= prev.push(copied.deep_view()));
                }
            },
            OutputAction::Other => {},
        }
        i = i + 1;
    }
    proof {
        assert(va.take(actions@.len() as int) =~= va);
    }
    let mut out: Vec<OutboundMessage> = Vec::new();
    let mut j: usize = picked.len();
    proof {
        assert(out.deep_view() =~= picked.deep_view().reverse().take(0));
    }
    while j > 0
        invariant
            j <= picked@.len(),
            out.deep_view() == picked.deep_view().reverse().take(
                picked@.len() - j,
            ),
        decreases j,
    {
        j = j - 1;
        let ghost prev = out.deep_view();
        let m = &picked[j];
        let copied = OutboundMessage {
            kind: m.kind,
            body: match &m.body {
                Some(b) => Some(crate::numeric::clone_bytes(b)),
                None => None,
            },
        };
        proof {
            assert(copied.deep_view() == picked.deep_view()[j as int]);
        }
        out.push(copied);
        proof {
            let rv = picked.deep_view().reverse();
            assert(out.deep_view() =~= prev.push(copied.deep_view()));
            assert(rv[picked@.len() - j - 1] == picked.deep_view()[j as int]);
            assert(out.deep_view() =~= rv.take(picked@.len() - j));
        }
    }
    proof {
        assert(picked.deep_view().reverse().take(picked@.len() as int) =~= picked
            .deep_view()
            .reverse());
    }
    out
}

/// Where scanning the outbound messages for this accessor's reply ends: the
/// first outbound external message whose body opens with the reply
/// selector, its body after the selector. An outbound external message with
/// no body at all, or with a body too short to hold a selector, stops the
/// scan with an error; messages of other kinds, and replies of other
/// accessors, are skipped. No qualifying message at all is an error.
pub open spec fn find_reply(ms: Seq<MessageModel>, sel: u32) -> Result<Seq<u8>, SimError>
    decreases ms.len(),
{
    if ms.len() == 0 {
        Err(SimError::NoMessagesProduced)
    } else if ms[0].kind != MessageKind::ExternalOutbound {
        find_reply(ms.skip(1), sel)
    } else {
        match ms[0].body {
            None => Err(SimError::MessageWithoutBody),
            Some(b) => if b.len() < 4 {
                Err(SimError::MalformedReply)
            } else if be_value(b.take(4)) == sel {
                Ok(b.skip(4))
            } else {
                find_reply(ms.skip(1), sel)
            },
        }
    }
}

/// Scans the outbound messages for this accessor's reply, exactly as
/// `find_reply` describes.
#[verifier::loop_isolation(false)]
pub fn extract_reply(messages: &Vec<OutboundMessage>, reply_selector: u32) -> (r: Result<
    Vec<u8>,
    SimError,
>)
    ensures
        r matches Ok(b) ==> find_reply(messages.deep_view(), reply_selector) == Ok::<
            Seq<u8>,
            SimError,
        >(b@),
        r matches Err(e) ==> find_reply(messages.deep_view(), reply_selector) == Err::<
            Seq<u8>,
            SimError,
        >(e),
{
    let ghost vm = messages.deep_view();
    let mut i: usize = 0;
    proof {
        assert(vm.skip(0) =~= vm);
    }
    while i < messages.len()
        invariant
            i <= messages@.len(),
            vm.len() == messages@.len(),
            find_reply(vm.skip(i as int), reply_selector) == find_reply(vm, reply_selector),
        decreases messages@.len() - i,
    {
        proof {
            assert(vm.skip(i as int)[0] == vm[i as int]);
            assert(vm[i as int] == messages@[i as int].deep_view());
            assert(vm.skip(i as int).skip(1) =~= vm.skip(i as int + 1));
        }
        let m = &messages[i];
        if matches!(m.kind, MessageKind::ExternalOutbound) {
            match &m.body {
                None => {
                    return Err(SimError::MessageWithoutBody);
                },
                Some(b) => {
                    if b.len() < 4 {
                        return Err(SimError::MalformedReply);
                    }
                    let lead: u32 = (b[0] as u32) * 16777216 + (b[1] as u32) * 65536 + (
                    b[2] as u32) * 256 + (b[3] as u32);
                    proof {
                        lemma_be4(b@.take(4));
                        assert(b@.take(4)[0] == b@[0] && b@.take(4)[1] == b@[1] && b@.take(4)[2]
                            == b@[2] && b@.take(4)[3] == b@[3]);
                    }
                    if lead == reply_selector {
                        let tail = tail_from(b, 4);
                        return Ok(tail);
                    }
                },
            }
        }
        i = i + 1;
    }
    proof {
        assert(vm.skip(messages@.len() as int) =~= Seq::<MessageModel>::empty());
    }
    Err(SimError::NoMessagesProduced)
}

/// The value of a four-byte big-endian string, spelled out by position.
proof fn lemma_be4(s: Seq<u8>)
    requires
        s.len() == 4,
    ensures
        be_value(s) == (s[0] as int) * 16777216 + (s[1] as int) * 65536 + (s[2] as int) * 256 + (
        s[3] as int),
{
    reveal_with_fuel(be_value, 5);
    let d3 = s.drop_last();
    let d2 = d3.drop_last();
    let d1 = d2.drop_last();
    assert(d1.drop_last() =~= Seq::<u8>::empty());
    assert(d1.last() == s[0] && d2.last() == s[1] && d3.last() == s[2] && s.last() == s[3]);
    assert(be_value(d1) == s[0]);
    assert(be_value(d2) == (s[0] as int) * 256 + s[1]);
    assert(be_value(d3) == ((s[0] as int) * 256 + s[1]) * 256 + s[2]);
}

/// Copies a byte string from the given position to its end.
fn tail_from(b: &Vec<u8>, start: usize) -> (r: Vec<u8>)
    requires
        start <= b@.len(),
    ensures
        r@ == b@.skip(start as int),
{
    let mut r: Vec<u8> = Vec::new();
    let mut i: usize = start;
    while i < b.len()
        invariant
            start <= i <= b@.len(),
            r@ =~= b@.subrange(start as int, i as int),
        decreases b@.len() - i,
    {
        r.push(b[i]);
        i = i + 1;
    }
    proof {
        assert(b@.subrange(start as int, b@.len() as int) =~= b@.skip(start as int));
    }
    r
}

} // verus!
