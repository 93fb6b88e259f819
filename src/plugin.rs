//! What a plugin declares about itself, and what it announces and
//! subscribes to when it connects.

use vstd::prelude::*;
use crate::dispatch::command_models;
use crate::shape::{CommandDef, command_spec_model};
use crate::types::{CommandSpec, EventType, PluginHello, PluginPayload, PluginToHost};

verus! {

/// A plugin's identity.
pub struct PluginInfo<'a> {
    pub id: &'a str,
    pub name: &'a str,
    pub version: &'a str,
    pub api_version: &'a str,
}

/// The event types a plugin receives.
pub trait EventSubscriptions {
    fn get_subscriptions(&self) -> Vec<EventType>;
}

/// The commands a plugin registers, in the order they are tried.
pub trait CommandRegistry {
    fn get_commands(&self) -> Vec<CommandDef> {
        Vec::new()
    }
}

/// Everything the runtime needs to know of a plugin.
pub trait Plugin: EventSubscriptions + CommandRegistry {
    fn get_info(&self) -> PluginInfo<'_>;

    fn get_id(&self) -> &str;

    fn get_name(&self) -> &str;

    fn get_version(&self) -> &str;

    fn get_api_version(&self) -> &str;
}

/// The subscriptions a plugin asked for, with `Command` added where it
/// registers commands and did not ask for it.
pub open spec fn effective_subscriptions(requested: Seq<EventType>, has_commands: bool) -> Seq<
    EventType,
> {
    if has_commands && !requested.contains(EventType::Command) {
        requested.push(EventType::Command)
    } else {
        requested
    }
}

/// The handshake of a plugin with the given identity and commands.
pub open spec fn is_hello(
    m: PluginToHost,
    id: Seq<char>,
    name: Seq<char>,
    version: Seq<char>,
    api_version: Seq<char>,
    commands: Seq<CommandDef>,
) -> bool {
    &&& m.plugin_id@ == id
    &&& match m.payload {
        Some(PluginPayload::Hello(h)) => {
            &&& h.name@ == name
            &&& h.version@ == version
            &&& h.api_version@ == api_version
            &&& h.commands@.map_values(|c: CommandSpec| c.model()) == command_models(
                commands,
            ).map_values(|c| command_spec_model(c))
        },
        _ => false,
    }
}

/// Runs a plugin's session: the decisions taken before its event loop.
pub struct PluginRunner {}

impl PluginRunner {
    /// The event types to subscribe to: those requested, and `Command` as
    /// well where the plugin registers any command.
    pub fn subscriptions(requested: &Vec<EventType>, has_commands: bool) -> (r: Vec<EventType>)
        ensures
            r@ == effective_subscriptions(requested@, has_commands),
    {
        let mut out: Vec<EventType> = Vec::new();
        let mut has_command_type = false;
        let mut i: usize = 0;
        while i < requested.len()
            invariant
                0 <= i <= requested@.len(),
                out@ == requested@.subrange(0, i as int),
                has_command_type == requested@.subrange(0, i as int).contains(EventType::Command),
            decreases requested@.len() - i,
        {
            let t = requested[i];
            proof {
                assert(requested@.subrange(0, i as int + 1) =~= requested@.subrange(0, i as int).push(t));
            }
            if t == EventType::Command {
                has_command_type = true;
            }
            proof {
                let s0 = requested@.subrange(0, i as int);
                let s1 = s0.push(t);
                if s1.contains(EventType::Command) {
                    let j = choose|j: int| 0 <= j < s1.len() && s1[j] == EventType::Command;
                    if j < s0.len() {
                        assert(s0[j] == s1[j]);
                    }
                }
                if s0.contains(EventType::Command) {
                    let j = choose|j: int| 0 <= j < s0.len() && s0[j] == EventType::Command;
                    assert(s1[j] == s0[j]);
                }
                assert(s1[i as int] == t);
            }
            out.push(t);
            i = i + 1;
        }
        proof {
            assert(requested@.subrange(0, requested@.len() as int) =~= requested@);
        }
        if has_commands && !has_command_type {
            out.push(EventType::Command);
        }
        out
    }

    /// The first message of a session: the plugin's identity and the
    /// specifications of its commands, in registration order.
    pub fn hello(info: &PluginInfo, commands: &Vec<CommandDef>) -> (r: PluginToHost)
        ensures
            is_hello(r, info.id@, info.name@, info.version@, info.api_version@, commands@),
    {
        let mut specs: Vec<CommandSpec> = Vec::new();
        let mut i: usize = 0;
        while i < commands.len()
            invariant
                0 <= i <= commands@.len(),
                specs@.map_values(|c: CommandSpec| c.model()) == command_models(
                    commands@,
                ).subrange(0, i as int).map_values(|c| command_spec_model(c)),
            decreases commands@.len() - i,
        {
            let ghost before = specs@;
            specs.push(commands[i].spec());
            proof {
                assert(specs@.map_values(|c: CommandSpec| c.model()) =~= before.map_values(
                    |c: CommandSpec| c.model(),
                ).push(command_spec_model(commands@[i as int].model())));
                assert(specs@.map_values(|c: CommandSpec| c.model()) =~= command_models(
                    commands@,
                ).subrange(0, i as int + 1).map_values(|c| command_spec_model(c)));
            }
            i = i + 1;
        }
        proof {
            assert(command_models(commands@).subrange(0, commands@.len() as int) =~= command_models(
                commands@,
            ));
        }
        PluginToHost {
            plugin_id: info.id.to_owned(),
            payload: Some(
                PluginPayload::Hello(
                    PluginHello {
                        name: info.name.to_owned(),
                        version: info.version.to_owned(),
                        api_version: info.api_version.to_owned(),
                        commands: specs,
                    },
                ),
            ),
        }
    }
}

} // verus!
