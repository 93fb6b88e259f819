//! The per-event context: read access to the event, its outcome, and the
//! single response that finalizing it queues.

use vstd::prelude::*;
use crate::types::{
    BlockBreakEvent, BlockBreakMutation, ChatEvent, ChatMutation, ItemStack, PluginPayload,
    PluginToHost, Update, UpdateModel,
};

verus! {

/// What the plugin decided for an event.
#[derive(Debug)]
pub enum EventResult {
    /// Let the host's default behaviour happen; the response is a plain acknowledgement.
    Ack,
    /// Stop the host's default behaviour.
    Cancelled,
    /// Ask the host to apply a change to the event.
    Mutated(Update),
}

pub enum OutcomeModel {
    Ack,
    Cancelled,
    Mutated(UpdateModel),
}

impl EventResult {
    pub open spec fn model(&self) -> OutcomeModel {
        match self {
            EventResult::Ack => OutcomeModel::Ack,
            EventResult::Cancelled => OutcomeModel::Cancelled,
            EventResult::Mutated(u) => OutcomeModel::Mutated(u.model()),
        }
    }
}

/// What finalizing an event a second time does.
#[derive(Clone, Copy, Debug, PartialEq, Eq, Structural)]
pub enum ResponsePolicy {
    /// A second finalization is reported as an error, for the caller to fail loudly.
    Strict,
    /// A second finalization is discarded, for the caller to log.
    Lenient,
}

/// A second finalization under the strict policy.
#[derive(Clone, Copy, Debug, PartialEq, Eq, Structural)]
pub enum ResponseError {
    AlreadySent,
}

/// What a finalization did.
#[derive(Clone, Copy, Debug, PartialEq, Eq, Structural)]
pub enum SendOutcome {
    /// The response was queued.
    Queued,
    /// A response had already been queued; nothing was added.
    Discarded,
}

/// The evolving part of a context: its outcome and whether it was finalized.
pub struct CtxState {
    pub outcome: OutcomeModel,
    pub sent: bool,
}

/// What a handler, or the dispatcher, can do to a context.
pub enum CtxOp {
    Cancel,
    Mutate(UpdateModel),
    Send,
    AckIfNeeded,
}

/// The state after an operation.
pub open spec fn apply(s: CtxState, op: CtxOp) -> CtxState {
    match op {
        CtxOp::Cancel => CtxState { outcome: OutcomeModel::Cancelled, sent: true },
        CtxOp::Mutate(u) => CtxState { outcome: OutcomeModel::Mutated(u), sent: s.sent },
        CtxOp::Send => CtxState { outcome: s.outcome, sent: true },
        CtxOp::AckIfNeeded => CtxState { outcome: s.outcome, sent: true },
    }
}

/// Whether an operation queues a response: exactly when it finalizes a
/// context that was not finalized yet.
pub open spec fn emits(s: CtxState, op: CtxOp) -> bool {
    match op {
        CtxOp::Mutate(_) => false,
        _ => !s.sent,
    }
}

/// The response carrying `outcome` for event `event_id` of plugin `plugin_id`.
pub open spec fn is_response(
    msg: PluginToHost,
    plugin_id: Seq<char>,
    event_id: Seq<char>,
    outcome: OutcomeModel,
) -> bool {
    &&& msg.plugin_id@ == plugin_id
    &&& match msg.payload {
        Some(PluginPayload::EventResult(r)) => {
            &&& r.event_id@ == event_id
            &&& r.cancel == if outcome is Cancelled {
                Some(true)
            } else {
                None
            }
            &&& match outcome {
                OutcomeModel::Mutated(u) => r.update is Some && r.update->Some_0.model() == u,
                _ => r.update is None,
            }
        },
        _ => false,
    }
}

/// The response slot after an operation: filled with the response where it
/// emits, unchanged otherwise.
pub open spec fn queued(
    before: Option<PluginToHost>,
    after: Option<PluginToHost>,
    emitted: bool,
    plugin_id: Seq<char>,
    event_id: Seq<char>,
    outcome: OutcomeModel,
) -> bool {
    if emitted {
        &&& before is None
        &&& after is Some
        &&& is_response(after->Some_0, plugin_id, event_id, outcome)
    } else {
        after == before
    }
}

/// What a finalization returns: `Queued` where it emitted, otherwise what
/// the policy says.
pub open spec fn send_result(emitted: bool, policy: ResponsePolicy) -> Result<
    SendOutcome,
    ResponseError,
> {
    if emitted {
        Ok(SendOutcome::Queued)
    } else if policy == ResponsePolicy::Strict {
        Err(ResponseError::AlreadySent)
    } else {
        Ok(SendOutcome::Discarded)
    }
}

/// The state and the number of responses queued after a run of operations.
pub open spec fn run(s: CtxState, ops: Seq<CtxOp>) -> (CtxState, nat)
    decreases ops.len(),
{
    if ops.len() == 0 {
        (s, 0)
    } else {
        let (t, n) = run(s, ops.drop_last());
        (apply(t, ops.last()), n + if emits(t, ops.last()) {
            1nat
        } else {
            0nat
        })
    }
}

pub open spec fn fresh_state() -> CtxState {
    CtxState { outcome: OutcomeModel::Ack, sent: false }
}

/// Whatever a handler does to a fresh context, at most one response is
/// queued, exactly one once it is finalized, and the dispatcher's closing
/// acknowledgement makes it exactly one.
pub proof fn lemma_exactly_one_response(ops: Seq<CtxOp>)
    ensures
        run(fresh_state(), ops).1 == if run(fresh_state(), ops).0.sent {
            1nat
        } else {
            0nat
        },
        run(fresh_state(), ops).1 <= 1,
        run(fresh_state(), ops.push(CtxOp::AckIfNeeded)).1 == 1,
        run(fresh_state(), ops.push(CtxOp::AckIfNeeded).push(CtxOp::Send)).1 == 1,
    decreases ops.len(),
{
    if ops.len() > 0 {
        lemma_exactly_one_response(ops.drop_last());
    }
    assert(ops.push(CtxOp::AckIfNeeded).drop_last() =~= ops);
    assert(ops.push(CtxOp::AckIfNeeded).push(CtxOp::Send).drop_last() =~= ops.push(
        CtxOp::AckIfNeeded,
    ));
}

/// Wraps one inbound event: read access to its data, its outcome, and the
/// single response that finalizing it produces.
pub struct EventContext<'a, T> {
    pub data: &'a T,
    pub result: EventResult,
    event_id: String,
    plugin_id: String,
    policy: ResponsePolicy,
    response: Option<PluginToHost>,
}

impl<'a, T> EventContext<'a, T> {
    /// Everything but the outcome, the finalization flag and the queue is
    /// as in `other`.
    pub open spec fn same_frame(&self, other: &Self) -> bool {
        &&& self.spec_data() == other.spec_data()
        &&& self.spec_event_id() == other.spec_event_id()
        &&& self.spec_plugin_id() == other.spec_plugin_id()
        &&& self.spec_policy() == other.spec_policy()
    }

    pub closed spec fn state(&self) -> CtxState {
        CtxState { outcome: self.result.model(), sent: self.response is Some }
    }

    pub closed spec fn spec_data(&self) -> &'a T {
        self.data
    }

    pub closed spec fn spec_event_id(&self) -> Seq<char> {
        self.event_id@
    }

    pub closed spec fn spec_plugin_id(&self) -> Seq<char> {
        self.plugin_id@
    }

    pub closed spec fn spec_policy(&self) -> ResponsePolicy {
        self.policy
    }

    pub closed spec fn spec_response(&self) -> Option<PluginToHost> {
        self.response
    }

    /// A context for a fresh event: no outcome, nothing queued.
    pub fn new(event_id: &str, data: &'a T, plugin_id: String, policy: ResponsePolicy) -> (r: Self)
        ensures
            r.spec_data() == data,
            r.state() == (CtxState { outcome: OutcomeModel::Ack, sent: false }),
            r.spec_event_id() == event_id@,
            r.spec_plugin_id() == plugin_id@,
            r.spec_policy() == policy,
            r.spec_response() is None,
    {
        EventContext {
            event_id: event_id.to_owned(),
            data,
            result: EventResult::Ack,
            plugin_id,
            policy,
            response: None,
        }
    }
}


impl<'a, T> EventContext<'a, T> {
    /// The id of the event.
    pub fn event_id(&self) -> (r: &str)
        ensures
            r@ == self.spec_event_id(),
    {
        self.event_id.as_str()
    }

    /// The response, once the context is finalized.
    pub fn response(&self) -> (r: Option<&PluginToHost>)
        ensures
            match r {
                Some(m) => self.spec_response() == Some(*m),
                None => self.spec_response() is None,
            },
    {
        match &self.response {
            Some(m) => Some(m),
            None => None,
        }
    }

    /// Whether the context has been finalized.
    pub fn is_sent(&self) -> (r: bool)
        ensures
            r == self.state().sent,
    {
        self.response.is_some()
    }

    /// The response for the current outcome.
    fn build_response(&self) -> (r: PluginToHost)
        ensures
            is_response(r, self.plugin_id@, self.event_id@, self.result.model()),
    {
        let event_id = self.event_id.clone();
        let payload = match &self.result {
            EventResult::Ack => crate::types::EventResult { event_id, cancel: None, update: None },
            EventResult::Cancelled => crate::types::EventResult {
                event_id,
                cancel: Some(true),
                update: None,
            },
            EventResult::Mutated(u) => crate::types::EventResult {
                event_id,
                cancel: None,
                update: Some(u.duplicate()),
            },
        };
        PluginToHost {
            plugin_id: self.plugin_id.clone(),
            payload: Some(PluginPayload::EventResult(payload)),
        }
    }

    /// Finalizes the event: queues the response for the current outcome.
    /// Under the lenient policy a second finalization is discarded; under the
    /// strict one it is a caller's error, ruled out by the precondition.
    pub fn send(&mut self) -> (r: Result<SendOutcome, ResponseError>)
        requires
            old(self).spec_policy() == ResponsePolicy::Strict ==> !old(self).state().sent,
        ensures
            final(self).state() == apply(old(self).state(), CtxOp::Send),
            final(self).same_frame(old(self)),
            queued(
                old(self).spec_response(),
                final(self).spec_response(),
                emits(old(self).state(), CtxOp::Send),
                old(self).spec_plugin_id(),
                old(self).spec_event_id(),
                old(self).state().outcome,
            ),
            r == send_result(emits(old(self).state(), CtxOp::Send), old(self).spec_policy()),
    {
        if self.response.is_some() {
            return match self.policy {
                ResponsePolicy::Strict => Err(ResponseError::AlreadySent),
                ResponsePolicy::Lenient => Ok(SendOutcome::Discarded),
            };
        }
        let msg = self.build_response();
        self.response = Some(msg);
        Ok(SendOutcome::Queued)
    }

    /// Cancels the event and finalizes it.
    pub fn cancel(&mut self) -> (r: Result<SendOutcome, ResponseError>)
        requires
            old(self).spec_policy() == ResponsePolicy::Strict ==> !old(self).state().sent,
        ensures
            final(self).state() == apply(old(self).state(), CtxOp::Cancel),
            final(self).same_frame(old(self)),
            queued(
                old(self).spec_response(),
                final(self).spec_response(),
                emits(old(self).state(), CtxOp::Cancel),
                old(self).spec_plugin_id(),
                old(self).spec_event_id(),
                OutcomeModel::Cancelled,
            ),
            r == send_result(emits(old(self).state(), CtxOp::Cancel), old(self).spec_policy()),
    {
        self.result = EventResult::Cancelled;
        self.send()
    }

    /// Records a change for the host to apply; it is sent when the context
    /// is finalized.
    pub fn set_mutation(&mut self, update: Update)
        ensures
            final(self).state() == apply(old(self).state(), CtxOp::Mutate(update.model())),
            final(self).same_frame(old(self)),
            final(self).spec_response() == old(self).spec_response(),
    {
        self.result = EventResult::Mutated(update);
    }

    /// Finalizes with the current outcome unless already finalized.
    pub fn send_ack_if_needed(&mut self)
        ensures
            final(self).state() == apply(old(self).state(), CtxOp::AckIfNeeded),
            final(self).same_frame(old(self)),
            queued(
                old(self).spec_response(),
                final(self).spec_response(),
                emits(old(self).state(), CtxOp::AckIfNeeded),
                old(self).spec_plugin_id(),
                old(self).spec_event_id(),
                old(self).state().outcome,
            ),
    {
        if self.response.is_some() {
            return;
        }
        let _ = self.send();
    }

    /// Consumes the context: the event id and the final outcome.
    pub fn into_result(self) -> (r: (String, EventResult))
        ensures
            r.0@ == self.spec_event_id(),
            r.1.model() == self.state().outcome,
    {
        (self.event_id, self.result)
    }
}

impl<'a> EventContext<'a, ChatEvent> {
    /// Sets the `message` for this event.
    pub fn set_message(&mut self, message: String)
        ensures
            final(self).state() == apply(
                old(self).state(),
                CtxOp::Mutate(UpdateModel::Chat { message: Some(message@) }),
            ),
            final(self).same_frame(old(self)),
            final(self).spec_response() == old(self).spec_response(),
    {
        let mutation = ChatMutation { message: Some(message) };
        self.set_mutation(Update::Chat(mutation));
    }
}

impl<'a> EventContext<'a, BlockBreakEvent> {
    /// Sets the `drops` for this event.
    pub fn set_drops(&mut self, drops: Vec<ItemStack>)
        ensures
            final(self).state() == apply(
                old(self).state(),
                CtxOp::Mutate(UpdateModel::BlockBreak { drops: Some(drops@), xp: None }),
            ),
            final(self).same_frame(old(self)),
            final(self).spec_response() == old(self).spec_response(),
    {
        let mutation = BlockBreakMutation { drops: Some(drops), xp: None };
        self.set_mutation(Update::BlockBreak(mutation));
    }

    /// Sets the `xp` for this event.
    pub fn set_xp(&mut self, xp: i32)
        ensures
            final(self).state() == apply(
                old(self).state(),
                CtxOp::Mutate(UpdateModel::BlockBreak { drops: None, xp: Some(xp) }),
            ),
            final(self).same_frame(old(self)),
            final(self).spec_response() == old(self).spec_response(),
    {
        let mutation = BlockBreakMutation { drops: None, xp: Some(xp) };
        self.set_mutation(Update::BlockBreak(mutation));
    }
}

} // verus!
