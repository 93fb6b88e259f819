use dragonfly_plugin::coerce::ArgValue;
use dragonfly_plugin::command::CommandParseError;
use dragonfly_plugin::dispatch::{dispatch_commands, route_event, CommandDispatch, Route};
use dragonfly_plugin::param::FieldType;
use dragonfly_plugin::plugin::{PluginInfo, PluginRunner};
use dragonfly_plugin::outbound::{action_message, actions_message, chat_message, subscribe_message};
use dragonfly_plugin::shape::{CommandDef, CommandShape, ParamMeta, VariantMeta};
use dragonfly_plugin::types::{
    Action, BlockBreakEvent, CommandEvent, EventEnvelope, EventType, GameMode, Kind, Payload,
    PluginPayload, SendChatAction, SetGameModeAction,
};

fn event(command: &str, args: &[&str]) -> CommandEvent {
    CommandEvent {
        player_uuid: "player-uuid".to_string(),
        name: String::new(),
        raw: String::new(),
        command: command.to_string(),
        args: args.iter().map(|s| s.to_string()).collect(),
    }
}

fn int_field(name: &str) -> ParamMeta {
    ParamMeta::from_field(name, &FieldType::Path { ident: "i32".to_string(), arg: None })
}

fn ping() -> CommandDef {
    CommandDef {
        name: "ping".to_string(),
        description: String::new(),
        aliases: Vec::new(),
        shape: CommandShape::Struct { params: vec![int_field("times")] },
    }
}

fn eco() -> CommandDef {
    let pay = VariantMeta::new("Pay", None, vec!["donate".to_string()], vec![int_field("amount")]);
    let bal = VariantMeta::new("Bal", None, Vec::new(), Vec::new());
    CommandDef {
        name: "eco".to_string(),
        description: String::new(),
        aliases: Vec::new(),
        shape: CommandShape::from_variants(vec![pay, bal]).unwrap(),
    }
}

fn envelope(payload: Payload, event_type: EventType) -> EventEnvelope {
    EventEnvelope { event_id: "id".to_string(), event_type, expects_response: true, payload: Some(payload) }
}

#[test]
fn ping_event_never_reaches_eco() {
    for commands in [vec![ping(), eco()], vec![eco(), ping()]] {
        let ping_index = if commands[0].name == "ping" { 0 } else { 1 };
        match dispatch_commands(&commands, &event("ping", &["3"])) {
            CommandDispatch::Matched { index, parsed } => {
                assert_eq!(index, ping_index);
                assert_eq!(parsed.values, vec![Some(ArgValue::Int(3))]);
            }
            other => panic!("unexpected dispatch {other:?}"),
        }
    }
}

#[test]
fn parse_failure_stops_dispatch() {
    // both commands answer to "ping"; the first decides, even when it fails
    let mut second = ping();
    second.shape = CommandShape::Struct { params: Vec::new() };
    let commands = vec![ping(), second];
    match dispatch_commands(&commands, &event("ping", &["x"])) {
        CommandDispatch::Failed { index, error } => {
            assert_eq!(index, 0);
            assert_eq!(error, CommandParseError::Invalid("times".to_string()));
        }
        other => panic!("unexpected dispatch {other:?}"),
    }
}

#[test]
fn unclaimed_command_is_unmatched() {
    let commands = vec![ping(), eco()];
    assert!(matches!(dispatch_commands(&commands, &event("warp", &[])), CommandDispatch::Unmatched));
    assert!(matches!(dispatch_commands(&Vec::new(), &event("ping", &["1"])), CommandDispatch::Unmatched));
}

#[test]
fn parse_error_routes_to_reply() {
    let env = envelope(Payload::Command(event("ping", &[])), EventType::Command);
    match route_event(&vec![ping()], &env, &Vec::new()) {
        Route::Reply { sender, message } => {
            assert_eq!(sender, "player-uuid");
            assert_eq!(message, "missing required argument `times`");
        }
        other => panic!("unexpected route {other:?}"),
    }
    let env = envelope(Payload::Command(event("eco", &["nope"])), EventType::Command);
    match route_event(&vec![ping(), eco()], &env, &Vec::new()) {
        Route::Reply { message, .. } => assert_eq!(message, "unknown subcommand"),
        other => panic!("unexpected route {other:?}"),
    }
}

#[test]
fn unmatched_command_falls_back_to_handler_or_ack() {
    let env = envelope(Payload::Command(event("warp", &[])), EventType::Command);
    assert!(matches!(
        route_event(&vec![ping()], &env, &vec![EventType::Command]),
        Route::Handler(EventType::Command)
    ));
    assert!(matches!(route_event(&vec![ping()], &env, &vec![EventType::Chat]), Route::Ack));
}

#[test]
fn other_events_go_to_their_handler_or_ack() {
    let env = envelope(
        Payload::BlockBreak(BlockBreakEvent { player_uuid: "u".to_string() }),
        EventType::BlockBreak,
    );
    assert!(matches!(
        route_event(&vec![ping()], &env, &vec![EventType::Chat, EventType::BlockBreak]),
        Route::Handler(EventType::BlockBreak)
    ));
    assert!(matches!(route_event(&vec![ping()], &env, &vec![EventType::Chat]), Route::Ack));
    let empty = EventEnvelope {
        event_id: "id".to_string(),
        event_type: EventType::Chat,
        expects_response: true,
        payload: None,
    };
    assert!(matches!(route_event(&Vec::new(), &empty, &vec![EventType::Chat]), Route::Ack));
}

#[test]
fn commands_imply_command_subscription() {
    let subs = PluginRunner::subscriptions(&vec![EventType::Chat], true);
    assert_eq!(subs, vec![EventType::Chat, EventType::Command]);
    let subs = PluginRunner::subscriptions(&vec![EventType::Command, EventType::Chat], true);
    assert_eq!(subs, vec![EventType::Command, EventType::Chat]);
    let subs = PluginRunner::subscriptions(&vec![EventType::Chat], false);
    assert_eq!(subs, vec![EventType::Chat]);
    assert!(PluginRunner::subscriptions(&Vec::new(), false).is_empty());
}

#[test]
fn hello_announces_identity_and_command_specs() {
    let info = PluginInfo { id: "test-plugin", name: "Test Plugin", version: "0.0.0", api_version: "1.0.0" };
    let msg = PluginRunner::hello(&info, &vec![ping(), eco()]);
    assert_eq!(msg.plugin_id, "test-plugin");
    match msg.payload.expect("missing payload") {
        PluginPayload::Hello(h) => {
            assert_eq!(h.name, "Test Plugin");
            assert_eq!(h.version, "0.0.0");
            assert_eq!(h.api_version, "1.0.0");
            assert_eq!(h.commands, vec![ping().spec(), eco().spec()]);
        }
        other => panic!("unexpected payload: {:?}", other),
    }
}

#[test]
fn send_action_wraps_single_action_in_batch() {
    let kind = Kind::SendChat(SendChatAction {
        target_uuid: "player-uuid".to_string(),
        message: "hello".to_string(),
    });
    let msg = action_message("plugin-id", kind);
    assert_eq!(msg.plugin_id, "plugin-id");

    match msg.payload.expect("missing payload") {
        PluginPayload::Actions(batch) => {
            assert_eq!(batch.actions.len(), 1);
            let action = &batch.actions[0];
            assert!(action.correlation_id.is_none());
            match action.kind.as_ref().expect("missing action kind") {
                Kind::SendChat(chat) => {
                    assert_eq!(chat.target_uuid, "player-uuid");
                    assert_eq!(chat.message, "hello");
                }
                other => panic!("unexpected action kind: {:?}", other),
            }
        }
        other => panic!("unexpected payload: {:?}", other),
    }
}

#[test]
fn send_chat_helper_builds_correct_action() {
    let msg = chat_message("plugin-id", "player-uuid", "hi there");
    match msg.payload.expect("missing payload") {
        PluginPayload::Actions(batch) => {
            assert_eq!(batch.actions.len(), 1);
            let action = &batch.actions[0];
            match action.kind.as_ref().expect("missing action kind") {
                Kind::SendChat(chat) => {
                    assert_eq!(chat.target_uuid, "player-uuid");
                    assert_eq!(chat.message, "hi there");
                }
                other => panic!("unexpected action kind: {:?}", other),
            }
        }
        other => panic!("unexpected payload: {:?}", other),
    }
}

#[test]
fn subscribe_sends_subscribe_payload() {
    let msg = subscribe_message("plugin-id", vec![EventType::Chat, EventType::Command]);
    assert_eq!(msg.plugin_id, "plugin-id");

    match msg.payload.expect("missing payload") {
        PluginPayload::Subscribe(sub) => {
            // Order is preserved from the vec we passed in.
            assert_eq!(sub.events.len(), 2);
            assert_eq!(sub.events[0], EventType::Chat);
            assert_eq!(sub.events[1], EventType::Command);
        }
        other => panic!("unexpected payload: {:?}", other),
    }
}

#[test]
fn batches_keep_their_actions_in_order() {
    let a = Action {
        correlation_id: Some("c1".to_string()),
        kind: Some(Kind::SetGameMode(SetGameModeAction {
            player_uuid: "u".to_string(),
            game_mode: GameMode::Creative as i32,
        })),
    };
    let b = Action { correlation_id: None, kind: None };
    let msg = actions_message("p", vec![a.clone(), b.clone()]);
    match msg.payload.unwrap() {
        PluginPayload::Actions(batch) => assert_eq!(batch.actions, vec![a, b]),
        other => panic!("unexpected payload: {:?}", other),
    }
}
