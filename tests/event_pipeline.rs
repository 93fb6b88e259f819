use dragonfly_plugin::coerce::ArgValue;
use dragonfly_plugin::dispatch::{route_event, Route};
use dragonfly_plugin::event::{EventContext, EventResult, ResponsePolicy, SendOutcome};
use dragonfly_plugin::param::FieldType;
use dragonfly_plugin::shape::{CommandDef, CommandShape, ParamMeta};
use dragonfly_plugin::types::{
    BlockBreakEvent, ChatEvent, CommandEvent, EventEnvelope, EventType, ItemStack, Payload,
    PluginPayload, PluginToHost, Update,
};

fn chat(message: &str) -> ChatEvent {
    ChatEvent {
        player_uuid: "player-uuid".to_string(),
        name: "Player".to_string(),
        message: message.to_string(),
    }
}

fn result_of(msg: &PluginToHost) -> &dragonfly_plugin::types::EventResult {
    match msg.payload.as_ref().expect("missing payload") {
        PluginPayload::EventResult(result) => result,
        other => panic!("unexpected payload: {:?}", other),
    }
}

/// Finalizes under the strict policy: a second finalization is a handler
/// bug and fails loudly.
fn send_strict<T>(ctx: &mut EventContext<'_, T>) {
    if ctx.is_sent() {
        panic!("Attempted to respond twice to the same event!");
    }
    assert_eq!(ctx.send(), Ok(SendOutcome::Queued));
}

fn ping_command() -> CommandDef {
    CommandDef {
        name: "ping".to_string(),
        description: "Ping command".to_string(),
        aliases: Vec::new(),
        shape: CommandShape::Struct {
            params: vec![ParamMeta::from_field(
                "value",
                &FieldType::Path { ident: "i32".to_string(), arg: None },
            )],
        },
    }
}

#[test]
fn event_context_cancel_sends_cancelled_result() {
    let chat = chat("hello");
    let mut ctx = EventContext::new("event-1", &chat, "plugin-id".to_string(), ResponsePolicy::Strict);
    ctx.cancel().unwrap();

    let msg = ctx.response().expect("expected event result message");
    assert_eq!(msg.plugin_id, "plugin-id");
    let result = result_of(msg);
    assert_eq!(result.event_id, "event-1");
    assert_eq!(result.cancel, Some(true));
    assert!(result.update.is_none());
}

#[test]
fn event_context_mutation_helper_sets_update() {
    let chat = chat("before");
    let mut ctx =
        EventContext::new("event-mutate", &chat, "plugin-id".to_string(), ResponsePolicy::Strict);
    ctx.set_message("after".to_string());
    ctx.send().unwrap();

    let msg = ctx.response().expect("expected mutation result");
    let result = result_of(msg);
    assert_eq!(result.event_id, "event-mutate");
    assert!(result.cancel.is_none());

    let update = result.update.as_ref().expect("missing update");
    match update {
        Update::Chat(mutation) => {
            assert_eq!(mutation.message.as_deref(), Some("after"));
        }
        other => panic!("unexpected update variant: {:?}", other),
    }
}

#[test]
fn dispatch_event_routes_chat_to_handler() {
    let mut calls: Vec<&'static str> = Vec::new();
    let chat = chat("hello");
    let envelope = EventEnvelope {
        event_id: "chat-event".to_string(),
        event_type: EventType::Chat,
        expects_response: true,
        payload: Some(Payload::Chat(chat.clone())),
    };

    let route = route_event(&Vec::new(), &envelope, &vec![EventType::Chat]);
    let mut ctx = EventContext::new(&envelope.event_id, &chat, "plugin-id".to_string(), ResponsePolicy::Strict);
    if let Route::Handler(EventType::Chat) = route {
        calls.push("chat");
    }
    ctx.send_ack_if_needed();

    // Handler was called.
    assert_eq!(calls.as_slice(), &["chat"]);

    // Ack was sent.
    let msg = ctx.response().expect("expected ack from dispatch_event");
    assert_eq!(msg.plugin_id, "plugin-id");
    let result = result_of(msg);
    assert_eq!(result.event_id, "chat-event");
    assert!(result.cancel.is_none());
    assert!(result.update.is_none());
}

#[test]
#[should_panic(expected = "Attempted to respond twice to the same event!")]
fn event_context_double_send_panics_in_debug() {
    let chat = chat("hello");
    let mut ctx =
        EventContext::new("event-double", &chat, "plugin-id".to_string(), ResponsePolicy::Strict);

    // First send is fine.
    send_strict(&mut ctx);
    // Second send should panic in debug builds.
    send_strict(&mut ctx);
}

#[test]
fn dispatch_event_dispatches_command_before_on_command() {
    let mut calls: Vec<String> = Vec::new();
    let cmd_event = CommandEvent {
        player_uuid: "player-uuid".to_string(),
        name: "/ping 5".to_string(),
        raw: "/ping 5".to_string(),
        command: "ping".to_string(),
        args: vec!["5".to_string()],
    };
    let envelope = EventEnvelope {
        event_id: "cmd-event".to_string(),
        event_type: EventType::Command,
        expects_response: true,
        payload: Some(Payload::Command(cmd_event.clone())),
    };

    // The plugin also has a generic command handler.
    let route = route_event(&vec![ping_command()], &envelope, &vec![EventType::Command]);
    let mut ctx = EventContext::new("cmd-event", &cmd_event, "plugin-id".to_string(), ResponsePolicy::Strict);
    match route {
        Route::RunCommand { index: 0, parsed } => {
            ctx.cancel().unwrap();
            match &parsed.values[0] {
                Some(ArgValue::Int(value)) => {
                    calls.push(format!("handled:{}:{value}", cmd_event.player_uuid))
                }
                other => panic!("unexpected value {other:?}"),
            }
        }
        Route::Handler(EventType::Command) => calls.push("on_command_fallback".to_string()),
        other => panic!("unexpected route {other:?}"),
    }
    ctx.send_ack_if_needed();

    // Command handler should have run, but on_command fallback should not.
    assert_eq!(calls.len(), 1);
    assert!(calls[0].starts_with("handled:player-uuid:5"));

    // An EventResult should have been sent, cancelling the raw command.
    let msg = ctx.response().expect("expected command EventResult");
    assert_eq!(msg.plugin_id, "plugin-id");
    assert_eq!(result_of(msg).cancel, Some(true));
}

#[test]
fn lenient_double_send_is_discarded() {
    let chat = chat("hello");
    let mut ctx = EventContext::new("e", &chat, "p".to_string(), ResponsePolicy::Lenient);
    assert_eq!(ctx.send(), Ok(SendOutcome::Queued));
    assert_eq!(ctx.send(), Ok(SendOutcome::Discarded));
    assert_eq!(ctx.cancel(), Ok(SendOutcome::Discarded));
    // the response is still the first one: a plain acknowledgement
    let result = result_of(ctx.response().unwrap());
    assert!(result.cancel.is_none());
}

#[test]
fn cancel_finalizes_and_later_ack_keeps_the_response() {
    let chat = chat("hello");
    let mut ctx = EventContext::new("e", &chat, "p".to_string(), ResponsePolicy::Strict);
    assert_eq!(ctx.cancel(), Ok(SendOutcome::Queued));
    assert!(ctx.is_sent());
    ctx.send_ack_if_needed();
    assert_eq!(result_of(ctx.response().unwrap()).cancel, Some(true));
}

#[test]
fn untouched_context_is_acknowledged_once() {
    let chat = chat("hello");
    let mut ctx = EventContext::new("e", &chat, "p".to_string(), ResponsePolicy::Strict);
    assert!(ctx.response().is_none());
    assert!(!ctx.is_sent());
    ctx.send_ack_if_needed();
    ctx.send_ack_if_needed();
    assert!(ctx.is_sent());
    let result = result_of(ctx.response().unwrap());
    assert_eq!(result.event_id, "e");
    assert!(result.cancel.is_none() && result.update.is_none());
}

#[test]
fn mutation_is_sent_by_fallback_ack() {
    let block = BlockBreakEvent { player_uuid: "u".to_string() };
    let mut ctx = EventContext::new("b", &block, "p".to_string(), ResponsePolicy::Strict);
    ctx.set_drops(vec![ItemStack { name: "stone".to_string(), count: 2 }]);
    ctx.set_xp(7);
    assert!(ctx.response().is_none());
    ctx.send_ack_if_needed();
    let result = result_of(ctx.response().unwrap());
    assert!(result.cancel.is_none());
    match result.update.as_ref().unwrap() {
        Update::BlockBreak(m) => {
            assert_eq!(m.xp, Some(7));
            assert!(m.drops.is_none());
        }
        other => panic!("unexpected update {other:?}"),
    }
    let (id, outcome) = ctx.into_result();
    assert_eq!(id, "b");
    assert!(matches!(outcome, EventResult::Mutated(Update::BlockBreak(_))));
}

#[test]
fn drops_are_carried_in_the_response() {
    let block = BlockBreakEvent { player_uuid: "u".to_string() };
    let mut ctx = EventContext::new("b", &block, "p".to_string(), ResponsePolicy::Strict);
    ctx.set_drops(vec![ItemStack { name: "stone".to_string(), count: 2 }]);
    ctx.send().unwrap();
    match result_of(ctx.response().unwrap()).update.as_ref().unwrap() {
        Update::BlockBreak(m) => assert_eq!(
            m.drops,
            Some(vec![ItemStack { name: "stone".to_string(), count: 2 }])
        ),
        other => panic!("unexpected update {other:?}"),
    }
    assert_eq!(ctx.data.player_uuid, "u");
    assert_eq!(ctx.event_id(), "b");
}
