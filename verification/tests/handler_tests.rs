use genesis::message::SocketMessage;
use genesis::message_handler::SocketMessageHandler;

struct Counter {
    seen: Vec<String>,
}

fn count_event(session: &mut Counter, _msg: &SocketMessage, name: String) -> bool {
    session.seen.push(name);
    true
}

fn refuse_event(_session: &mut Counter, _msg: &SocketMessage, _name: String) -> bool {
    false
}

#[test]
fn handler_calls_the_callback_of_the_event() {
    let mut handler: SocketMessageHandler<fn(&mut Counter, &SocketMessage, String) -> bool> =
        SocketMessageHandler::new();
    handler.add_event_handler("GOSSIP".to_string(), count_event);
    handler.add_event_handler("REJECT".to_string(), refuse_event);
    let msg = SocketMessage::heartbeat();
    let mut session = Counter { seen: vec![] };
    assert!(handler.process_event("GOSSIP".to_string(), &mut session, &msg));
    assert!(!handler.process_event("REJECT".to_string(), &mut session, &msg));
    assert!(!handler.process_event("UNKNOWN".to_string(), &mut session, &msg));
    assert_eq!(session.seen, vec!["GOSSIP".to_string()]);
}

#[test]
fn handler_replaces_and_removes_callbacks() {
    let mut handler: SocketMessageHandler<fn(&mut Counter, &SocketMessage, String) -> bool> =
        SocketMessageHandler::new();
    let msg = SocketMessage::heartbeat();
    let mut session = Counter { seen: vec![] };
    handler.add_event_handler("GOSSIP".to_string(), count_event);
    handler.add_event_handler("GOSSIP".to_string(), refuse_event);
    assert!(!handler.process_event("GOSSIP".to_string(), &mut session, &msg));
    assert!(session.seen.is_empty());
    handler.add_event_handler("GOSSIP".to_string(), count_event);
    assert!(handler.process_event("GOSSIP".to_string(), &mut session, &msg));
    handler.remove_event_handler("GOSSIP".to_string());
    assert!(!handler.process_event("GOSSIP".to_string(), &mut session, &msg));
    assert_eq!(session.seen.len(), 1);
}
