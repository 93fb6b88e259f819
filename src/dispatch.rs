//! Dispatch decisions: which registered command claims a command event,
//! where each inbound event goes, and what a plugin announces and
//! subscribes to when it connects.

use vstd::prelude::*;
use crate::command::{CommandParseError, ErrModel, message_text, texts};
use crate::parser::{ParsedCommand, ParsedModel, name_matches, parse_model};
use crate::shape::{CommandDef, CommandModel};
use crate::types::{EventEnvelope, EventType, Payload};

verus! {

pub open spec fn command_models(cs: Seq<CommandDef>) -> Seq<CommandModel> {
    cs.map_values(|c: CommandDef| c.model())
}

/// A command claims an event unless its name and aliases do not match.
pub open spec fn claims(c: CommandModel, command: Seq<char>, args: Seq<Seq<char>>) -> bool {
    parse_model(c, command, args) != Err::<ParsedModel, ErrModel>(ErrModel::NoMatch)
}

/// The first registered command that claims the event.
pub open spec fn first_claim(cs: Seq<CommandModel>, command: Seq<char>, args: Seq<Seq<char>>) -> Option<int>
    decreases cs.len(),
{
    if cs.len() == 0 {
        None
    } else {
        match first_claim(cs.drop_last(), command, args) {
            Some(i) => Some(i),
            None => if claims(cs.last(), command, args) {
                Some(cs.len() - 1)
            } else {
                None
            },
        }
    }
}

/// The outcome of trying the registered commands in order.
#[derive(Debug)]
pub enum CommandDispatch {
    /// Command `index` parsed the event.
    Matched { index: usize, parsed: ParsedCommand },
    /// Command `index` claimed the event but rejected its arguments.
    Failed { index: usize, error: CommandParseError },
    /// No registered command claimed the event.
    Unmatched,
}

/// The commands' dispatch of an event, as its contract reads it.
pub open spec fn dispatch_matches(
    r: CommandDispatch,
    cs: Seq<CommandModel>,
    command: Seq<char>,
    args: Seq<Seq<char>>,
) -> bool {
    match r {
        CommandDispatch::Matched { index, parsed } => {
            &&& first_claim(cs, command, args) == Some(index as int)
            &&& parse_model(cs[index as int], command, args) == Ok::<ParsedModel, ErrModel>(
                parsed.model(),
            )
        },
        CommandDispatch::Failed { index, error } => {
            &&& first_claim(cs, command, args) == Some(index as int)
            &&& parse_model(cs[index as int], command, args) == Err::<ParsedModel, ErrModel>(
                error.model(),
            )
        },
        CommandDispatch::Unmatched => first_claim(cs, command, args) is None,
    }
}

proof fn lemma_first_claim_prefix(
    cs: Seq<CommandModel>,
    command: Seq<char>,
    args: Seq<Seq<char>>,
    k: int,
)
    requires
        0 <= k <= cs.len(),
        first_claim(cs.subrange(0, k), command, args) is Some,
    ensures
        first_claim(cs, command, args) == first_claim(cs.subrange(0, k), command, args),
    decreases cs.len() - k,
{
    if k < cs.len() {
        assert(cs.subrange(0, k + 1).drop_last() =~= cs.subrange(0, k));
        lemma_first_claim_prefix(cs, command, args, k + 1);
    } else {
        assert(cs.subrange(0, k) =~= cs);
    }
}

/// Tries the registered commands in registration order: the first that
/// does not answer `NoMatch` decides.
pub fn dispatch_commands(commands: &Vec<CommandDef>, event: &crate::types::CommandEvent) -> (r:
    CommandDispatch)
    ensures
        dispatch_matches(r, command_models(commands@), event.command@, texts(event.args@)),
{
    let ghost cs = command_models(commands@);
    let ghost command = event.command@;
    let ghost args = texts(event.args@);
    let mut i: usize = 0;
    while i < commands.len()
        invariant
            0 <= i <= commands@.len() == cs.len(),
            cs == command_models(commands@),
            command == event.command@,
            args == texts(event.args@),
            first_claim(cs.subrange(0, i as int), command, args) is None,
        decreases commands@.len() - i,
    {
        let r = commands[i].parse(event);
        proof {
            assert(cs.subrange(0, i as int + 1).drop_last() =~= cs.subrange(0, i as int));
            assert(cs[i as int] == commands@[i as int].model());
        }
        match r {
            Err(CommandParseError::NoMatch) => {},
            Ok(parsed) => {
                proof {
                    lemma_first_claim_prefix(cs, command, args, i as int + 1);
                }
                return CommandDispatch::Matched { index: i, parsed };
            },
            Err(error) => {
                proof {
                    lemma_first_claim_prefix(cs, command, args, i as int + 1);
                }
                return CommandDispatch::Failed { index: i, error };
            },
        }
        i = i + 1;
    }
    proof {
        assert(cs.subrange(0, cs.len() as int) =~= cs);
    }
    CommandDispatch::Unmatched
}

/// A registered command whose name and aliases do not match the event's
/// command token is never the one selected, whatever the order of
/// registration.
pub proof fn lemma_unnamed_command_not_selected(
    commands: Seq<CommandDef>,
    event: crate::types::CommandEvent,
    j: int,
)
    requires
        0 <= j < commands.len(),
        !name_matches(commands[j].name@, texts(commands[j].aliases@), event.command@),
    ensures
        first_claim(command_models(commands), event.command@, texts(event.args@)) != Some(j),
{
    let cs = command_models(commands);
    let command = event.command@;
    let args = texts(event.args@);
    assert(cs[j] == commands[j].model());
    assert(!claims(cs[j], command, args));
    lemma_first_claim_is_claim(cs, command, args);
}

proof fn lemma_first_claim_is_claim(cs: Seq<CommandModel>, command: Seq<char>, args: Seq<Seq<char>>)
    ensures
        match first_claim(cs, command, args) {
            Some(i) => 0 <= i < cs.len() && claims(cs[i], command, args),
            None => true,
        },
    decreases cs.len(),
{
    if cs.len() > 0 {
        lemma_first_claim_is_claim(cs.drop_last(), command, args);
    }
}

/// Where an inbound event goes.
#[derive(Debug)]
pub enum Route {
    /// Command `index` parsed the event: cancel the event (the host's own
    /// handling of the text is suppressed), then run that command's handler.
    RunCommand { index: usize, parsed: ParsedCommand },
    /// A command rejected the arguments: send `message` to `sender`, then
    /// finalize the event.
    Reply { sender: String, message: String },
    /// Pass the event to the plugin's handler for its type.
    Handler(EventType),
    /// Nothing handles the event: finalize it with a plain acknowledgement.
    Ack,
}

pub open spec fn payload_type(p: Payload) -> EventType {
    match p {
        Payload::Chat(_) => EventType::Chat,
        Payload::BlockBreak(_) => EventType::BlockBreak,
        Payload::Command(_) => EventType::Command,
    }
}

/// Where an event with payload `p` goes when the plugin handles the types
/// in `handled`, as its contract reads it.
pub open spec fn route_matches(
    r: Route,
    cs: Seq<CommandModel>,
    p: Option<Payload>,
    handled: Seq<EventType>,
) -> bool {
    let fallback = match p {
        Some(q) => if handled.contains(payload_type(q)) {
            r == Route::Handler(payload_type(q))
        } else {
            r is Ack
        },
        None => r is Ack,
    };
    match p {
        Some(Payload::Command(ev)) => {
            let (command, args) = (ev.command@, texts(ev.args@));
            match first_claim(cs, command, args) {
                Some(i) => match parse_model(cs[i], command, args) {
                    Ok(m) => match r {
                        Route::RunCommand { index, parsed } => index == i && parsed.model() == m,
                        _ => false,
                    },
                    Err(e) => match r {
                        Route::Reply { sender, message } => sender@ == ev.player_uuid@ && message@
                            == message_text(e),
                        _ => false,
                    },
                },
                None => fallback,
            }
        },
        _ => fallback,
    }
}

fn handles(handled: &Vec<EventType>, t: EventType) -> (r: bool)
    ensures
        r == handled@.contains(t),
{
    let mut k: usize = 0;
    while k < handled.len()
        invariant
            0 <= k <= handled@.len(),
            forall|j: int| 0 <= j < k ==> handled@[j] != t,
        decreases handled@.len() - k,
    {
        if handled[k] == t {
            return true;
        }
        k = k + 1;
    }
    false
}

fn type_of(p: &Payload) -> (r: EventType)
    ensures
        r == payload_type(*p),
{
    match p {
        Payload::Chat(_) => EventType::Chat,
        Payload::BlockBreak(_) => EventType::BlockBreak,
        Payload::Command(_) => EventType::Command,
    }
}

/// Decides where an inbound event goes. Command events are offered to the
/// registered commands first; what none claims goes to the plugin's handler
/// for the event's type, if it has one, else is acknowledged.
pub fn route_event(commands: &Vec<CommandDef>, envelope: &EventEnvelope, handled: &Vec<EventType>) -> (r:
    Route)
    ensures
        route_matches(r, command_models(commands@), envelope.payload, handled@),
{
    match &envelope.payload {
        None => Route::Ack,
        Some(p) => {
            if let Payload::Command(ev) = p {
                match dispatch_commands(commands, ev) {
                    CommandDispatch::Matched { index, parsed } => {
                        return Route::RunCommand { index, parsed };
                    },
                    CommandDispatch::Failed { index, error } => {
                        return Route::Reply {
                            sender: ev.player_uuid.clone(),
                            message: error.message(),
                        };
                    },
                    CommandDispatch::Unmatched => {},
                }
            }
            let t = type_of(p);
            if handles(handled, t) {
                Route::Handler(t)
            } else {
                Route::Ack
            }
        },
    }
}

} // verus!
