//! Messages exchanged with the host: inbound events, outbound responses,
//! actions, and the command descriptors announced at connection time.

use vstd::prelude::*;
use crate::param::ParamType;

verus! {

/// One parameter of a command, as announced to the host.
#[derive(Clone, Debug, PartialEq)]
pub struct ParamSpec {
    pub name: String,
    pub param_type: ParamType,
    pub optional: bool,
    pub suffix: String,
    pub enum_values: Vec<String>,
}

/// A command, as announced to the host.
#[derive(Clone, Debug, PartialEq)]
pub struct CommandSpec {
    pub name: String,
    pub description: String,
    pub aliases: Vec<String>,
    pub params: Vec<ParamSpec>,
}

/// The kinds of game event a plugin can subscribe to.
#[derive(Clone, Copy, Debug, PartialEq, Eq, Structural)]
pub enum EventType {
    Chat,
    BlockBreak,
    Command,
}

/// A player typed a command: `command` is its first token, `args` the rest.
#[derive(Clone, Debug, PartialEq)]
pub struct CommandEvent {
    pub player_uuid: String,
    pub name: String,
    pub raw: String,
    pub command: String,
    pub args: Vec<String>,
}

#[derive(Clone, Debug, PartialEq)]
pub struct ChatEvent {
    pub player_uuid: String,
    pub name: String,
    pub message: String,
}

#[derive(Clone, Debug, PartialEq)]
pub struct BlockBreakEvent {
    pub player_uuid: String,
}

/// The data of an inbound event.
#[derive(Clone, Debug, PartialEq)]
pub enum Payload {
    Chat(ChatEvent),
    BlockBreak(BlockBreakEvent),
    Command(CommandEvent),
}

/// One inbound event with its correlation id.
#[derive(Clone, Debug, PartialEq)]
pub struct EventEnvelope {
    pub event_id: String,
    pub event_type: EventType,
    pub expects_response: bool,
    pub payload: Option<Payload>,
}

#[derive(Clone, Debug, PartialEq)]
pub struct ItemStack {
    pub name: String,
    pub count: i32,
}

impl ItemStack {
    /// A copy of this stack.
    pub fn copy(&self) -> (r: ItemStack)
        ensures
            r == *self,
    {
        ItemStack { name: self.name.clone(), count: self.count }
    }
}

#[derive(Clone, Debug, PartialEq)]
pub struct ChatMutation {
    pub message: Option<String>,
}

#[derive(Clone, Debug, PartialEq)]
pub struct BlockBreakMutation {
    pub drops: Option<Vec<ItemStack>>,
    pub xp: Option<i32>,
}

/// The change a plugin asks the host to apply to an event.
#[derive(Clone, Debug, PartialEq)]
pub enum Update {
    Chat(ChatMutation),
    BlockBreak(BlockBreakMutation),
}

/// The content of an [`Update`], with each list read as a sequence.
pub enum UpdateModel {
    Chat { message: Option<Seq<char>> },
    BlockBreak { drops: Option<Seq<ItemStack>>, xp: Option<i32> },
}

impl Update {
    pub open spec fn model(&self) -> UpdateModel {
        match self {
            Update::Chat(m) => UpdateModel::Chat {
                message: match m.message {
                    Some(s) => Some(s@),
                    None => None,
                },
            },
            Update::BlockBreak(m) => UpdateModel::BlockBreak {
                drops: match m.drops {
                    Some(d) => Some(d@),
                    None => None,
                },
                xp: m.xp,
            },
        }
    }

    /// A copy of this update.
    pub fn duplicate(&self) -> (r: Update)
        ensures
            r.model() == self.model(),
    {
        match self {
            Update::Chat(m) => {
                let message = match &m.message {
                    Some(s) => Some(s.clone()),
                    None => None,
                };
                Update::Chat(ChatMutation { message })
            },
            Update::BlockBreak(m) => {
                let drops = match &m.drops {
                    Some(d) => Some(copy_stacks(d)),
                    None => None,
                };
                Update::BlockBreak(BlockBreakMutation { drops, xp: m.xp })
            },
        }
    }
}

/// A copy of a list of item stacks.
pub fn copy_stacks(v: &Vec<ItemStack>) -> (r: Vec<ItemStack>)
    ensures
        r@ == v@,
{
    let mut out: Vec<ItemStack> = Vec::new();
    let mut i: usize = 0;
    while i < v.len()
        invariant
            0 <= i <= v@.len(),
            out@ == v@.subrange(0, i as int),
        decreases v@.len() - i,
    {
        out.push(v[i].copy());
        i = i + 1;
    }
    out
}

/// The response to one event: `cancel` and `update` are both absent for a
/// plain acknowledgement.
#[derive(Clone, Debug, PartialEq)]
pub struct EventResult {
    pub event_id: String,
    pub cancel: Option<bool>,
    pub update: Option<Update>,
}

#[derive(Clone, Copy, Debug, PartialEq, Eq, Structural)]
pub enum GameMode {
    Survival,
    Creative,
}

#[derive(Clone, Debug, PartialEq)]
pub struct SendChatAction {
    pub target_uuid: String,
    pub message: String,
}

#[derive(Clone, Debug, PartialEq)]
pub struct SetGameModeAction {
    pub player_uuid: String,
    pub game_mode: i32,
}

#[derive(Clone, Debug, PartialEq)]
pub struct GiveItemAction {
    pub player_uuid: String,
    pub item: Option<ItemStack>,
}

/// What an outbound action does.
#[derive(Clone, Debug, PartialEq)]
pub enum Kind {
    SendChat(SendChatAction),
    SetGameMode(SetGameModeAction),
    GiveItem(GiveItemAction),
}

#[derive(Clone, Debug, PartialEq)]
pub struct Action {
    pub correlation_id: Option<String>,
    pub kind: Option<Kind>,
}

#[derive(Clone, Debug, PartialEq)]
pub struct ActionBatch {
    pub actions: Vec<Action>,
}

/// The first message of a session: who the plugin is and what it offers.
#[derive(Clone, Debug, PartialEq)]
pub struct PluginHello {
    pub name: String,
    pub version: String,
    pub api_version: String,
    pub commands: Vec<CommandSpec>,
}

#[derive(Clone, Debug, PartialEq)]
pub struct EventSubscribe {
    pub events: Vec<EventType>,
}

#[derive(Clone, Debug, PartialEq)]
pub enum PluginPayload {
    Hello(PluginHello),
    Subscribe(EventSubscribe),
    Actions(ActionBatch),
    EventResult(EventResult),
}

/// One outbound message.
#[derive(Clone, Debug, PartialEq)]
pub struct PluginToHost {
    pub plugin_id: String,
    pub payload: Option<PluginPayload>,
}

} // verus!
