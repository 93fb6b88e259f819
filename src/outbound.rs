//! Outbound messages that carry actions and subscriptions.

use vstd::prelude::*;
use crate::types::{
    Action, ActionBatch, EventSubscribe, EventType, Kind, PluginPayload, PluginToHost,
    SendChatAction,
};

verus! {

/// `m` carries the batch `actions` from plugin `plugin_id`.
pub open spec fn is_actions_message(m: PluginToHost, plugin_id: Seq<char>, actions: Seq<Action>) -> bool {
    &&& m.plugin_id@ == plugin_id
    &&& match m.payload {
        Some(PluginPayload::Actions(batch)) => batch.actions@ == actions,
        _ => false,
    }
}

/// `m` carries exactly one chat action: `message` for player `target`.
pub open spec fn is_chat_message(
    m: PluginToHost,
    plugin_id: Seq<char>,
    target: Seq<char>,
    message: Seq<char>,
) -> bool {
    &&& m.plugin_id@ == plugin_id
    &&& match m.payload {
        Some(PluginPayload::Actions(batch)) => {
            &&& batch.actions@.len() == 1
            &&& batch.actions@[0].correlation_id is None
            &&& match batch.actions@[0].kind {
                Some(Kind::SendChat(a)) => a.target_uuid@ == target && a.message@ == message,
                _ => false,
            }
        },
        _ => false,
    }
}

/// A message carrying a batch of actions.
pub fn actions_message(plugin_id: &str, actions: Vec<Action>) -> (r: PluginToHost)
    ensures
        is_actions_message(r, plugin_id@, actions@),
{
    PluginToHost {
        plugin_id: plugin_id.to_owned(),
        payload: Some(PluginPayload::Actions(ActionBatch { actions })),
    }
}

/// A message carrying one action, without a correlation id.
pub fn action_message(plugin_id: &str, kind: Kind) -> (r: PluginToHost)
    ensures
        is_actions_message(r, plugin_id@, seq![Action { correlation_id: None, kind: Some(kind) }]),
{
    let mut actions: Vec<Action> = Vec::new();
    actions.push(Action { correlation_id: None, kind: Some(kind) });
    proof {
        assert(actions@ =~= seq![Action { correlation_id: None, kind: Some(kind) }]);
    }
    actions_message(plugin_id, actions)
}

/// A message carrying one chat action for player `target_uuid`.
pub fn chat_message(plugin_id: &str, target_uuid: &str, message: &str) -> (r: PluginToHost)
    ensures
        is_chat_message(r, plugin_id@, target_uuid@, message@),
{
    let kind = Kind::SendChat(
        SendChatAction { target_uuid: target_uuid.to_owned(), message: message.to_owned() },
    );
    action_message(plugin_id, kind)
}

/// A message subscribing to the given event types, in order.
pub fn subscribe_message(plugin_id: &str, events: Vec<EventType>) -> (r: PluginToHost)
    ensures
        r.plugin_id@ == plugin_id@,
        match r.payload {
            Some(PluginPayload::Subscribe(sub)) => sub.events@ == events@,
            _ => false,
        },
{
    PluginToHost {
        plugin_id: plugin_id.to_owned(),
        payload: Some(PluginPayload::Subscribe(EventSubscribe { events })),
    }
}

} // verus!
