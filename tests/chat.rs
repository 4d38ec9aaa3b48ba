use game_runtime::chat::{
    chat_registry, handle_broadcast, handle_help, handle_whisper, receive, Hub, OutEvent, Outbound,
};
use game_runtime::dispatch::{Handler, Registry};

fn s(x: &str) -> String {
    x.to_string()
}

fn args(xs: &[&str]) -> Vec<String> {
    xs.iter().map(|x| x.to_string()).collect()
}

fn flat(out: &[Outbound]) -> Vec<(u64, OutEvent, Vec<String>)> {
    out.iter().map(|o| (o.to, o.event, o.args.clone())).collect()
}

fn hub_abc() -> Hub {
    let mut h = Hub::new();
    h.connect(1, s("alice"));
    h.connect(2, s("bob"));
    h.connect(3, s("carol"));
    h
}

#[test]
fn broadcast_reaches_everyone_else() {
    let hub = hub_abc();
    let table = chat_registry();
    let out = receive(&hub, &table, 1, &s("alice"), &s("broadcast"), &args(&["hi"]));
    assert_eq!(
        flat(&out),
        vec![(2, OutEvent::Broadcast, args(&["hi"])), (3, OutEvent::Broadcast, args(&["hi"]))]
    );
    assert!(out.iter().all(|o| o.to != 1));
}

#[test]
fn broadcast_alone_sends_nothing() {
    let mut hub = Hub::new();
    hub.connect(9, s("solo"));
    assert!(handle_broadcast(&hub, 9, &s("solo"), &s("anyone?")).is_empty());
}

#[test]
fn whisper_reaches_recipient_only() {
    let hub = hub_abc();
    let out = handle_whisper(&hub, 1, &s("alice"), &s("bob"), &s("psst"));
    assert_eq!(flat(&out), vec![(2, OutEvent::Whisper, args(&["bob", "psst"]))]);
}

#[test]
fn whisper_to_absent_recipient_sends_nothing() {
    let hub = hub_abc();
    let out = handle_whisper(&hub, 1, &s("alice"), &s("dave"), &s("hello?"));
    assert!(out.is_empty());
}

#[test]
fn whisper_reaches_every_connection_of_a_name() {
    let mut hub = hub_abc();
    hub.connect(4, s("bob"));
    let out = handle_whisper(&hub, 3, &s("carol"), &s("bob"), &s("yo"));
    assert_eq!(
        flat(&out),
        vec![(2, OutEvent::Whisper, args(&["bob", "yo"])), (4, OutEvent::Whisper, args(&["bob", "yo"]))]
    );
}

#[test]
fn help_answers_requester() {
    let out = handle_help(7, &s("zed"));
    assert_eq!(flat(&out), vec![(7, OutEvent::Help, args(&["Here's some help!"]))]);
    let hub = hub_abc();
    let out = receive(&hub, &chat_registry(), 2, &s("bob"), &s("command"), &args(&["help"]));
    assert_eq!(flat(&out), vec![(2, OutEvent::Help, args(&["Here's some help!"]))]);
}

#[test]
fn dispatch_whisper_with_exact_args() {
    let mut table = Registry::new();
    table.register(s("whisper"), Handler::Whisper);
    assert_eq!(table.dispatch(&s("whisper"), &args(&["bob", "hi"])), Some(Handler::Whisper));
    let hub = hub_abc();
    let out = receive(&hub, &table, 1, &s("alice"), &s("whisper"), &args(&["bob", "hi"]));
    assert_eq!(flat(&out), vec![(2, OutEvent::Whisper, args(&["bob", "hi"]))]);
}

#[test]
fn dispatch_unknown_event_dropped() {
    let hub = hub_abc();
    let table = chat_registry();
    assert_eq!(table.dispatch(&s("dance"), &args(&["now"])), None);
    assert!(receive(&hub, &table, 1, &s("alice"), &s("dance"), &args(&["now"])).is_empty());
}

#[test]
fn dispatch_wrong_arity_dropped() {
    let hub = hub_abc();
    let table = chat_registry();
    assert_eq!(table.dispatch(&s("whisper"), &args(&["bob"])), None);
    assert!(receive(&hub, &table, 1, &s("alice"), &s("whisper"), &args(&["bob"])).is_empty());
    assert!(receive(&hub, &table, 1, &s("alice"), &s("broadcast"), &args(&[])).is_empty());
    assert!(receive(&hub, &table, 1, &s("alice"), &s("command"), &args(&["a", "b"])).is_empty());
}

#[test]
fn register_twice_last_wins() {
    let mut table = Registry::new();
    table.register(s("say"), Handler::Whisper);
    table.register(s("say"), Handler::Broadcast);
    assert_eq!(table.dispatch(&s("say"), &args(&["x"])), Some(Handler::Broadcast));
    assert_eq!(table.dispatch(&s("say"), &args(&["x", "y"])), None);
}

#[test]
fn chat_registry_bindings() {
    let table = chat_registry();
    assert_eq!(table.dispatch(&s("whisper"), &args(&["a", "b"])), Some(Handler::Whisper));
    assert_eq!(table.dispatch(&s("broadcast"), &args(&["a"])), Some(Handler::Broadcast));
    assert_eq!(table.dispatch(&s("command"), &args(&["help"])), Some(Handler::Help));
    assert_eq!(table.dispatch(&s("help"), &args(&["help"])), None);
}

#[test]
fn hub_connect_rename_and_disconnect() {
    let mut hub = hub_abc();
    assert_eq!(hub.len(), 3);
    hub.connect(2, s("robert"));
    assert_eq!(hub.len(), 3);
    assert!(handle_whisper(&hub, 1, &s("alice"), &s("bob"), &s("x")).is_empty());
    assert_eq!(handle_whisper(&hub, 1, &s("alice"), &s("robert"), &s("x")).len(), 1);
    hub.disconnect(2);
    assert_eq!(hub.len(), 2);
    hub.disconnect(42);
    assert_eq!(hub.len(), 2);
    let out = handle_broadcast(&hub, 1, &s("alice"), &s("bye"));
    assert_eq!(flat(&out), vec![(3, OutEvent::Broadcast, args(&["bye"]))]);
}
