use synergy::config::ComponentConfig;
use synergy::hub::{self, AssemblyError, HubAction};
use synergy::message::{Event, Message, Reply};
use synergy::reactor::echo::{self, Echo};
use synergy::reactor::{Dispatching, Reactor, Seed, Step, Type};
use synergy::strmap::StrMap;
use synergy::user::{User, UserRow, ColumnValue};
use synergy::user_directory::{Directory, IdentityRow};

fn echo_reactor(name: &str) -> Echo {
    echo::new(Seed {
        name: name.to_string(),
        config: ComponentConfig { class: Type::EchoReactor, extra: StrMap::new() },
    })
}

fn event(text: &str, was_targeted: bool) -> Event {
    Event {
        text: text.to_string(),
        is_public: false,
        was_targeted,
        from_address: "sysop".to_string(),
        conversation_address: "#public".to_string(),
        origin: "channel/term".to_string(),
        user: None,
        id: Event::new_id(),
    }
}

fn one_reactor_hub() -> hub::Hub {
    let mut h = hub::new();
    assert_eq!(h.assemble_reactor("echo").ok(), Some("reactor/echo".to_string()));
    assert_eq!(h.assemble_channel("term").ok(), Some("channel/term".to_string()));
    h
}

fn expect_broadcast(action: HubAction) -> Event {
    match action {
        HubAction::Broadcast(e) => e,
        other => panic!("expected a broadcast, got {:?}", other),
    }
}

fn expect_reply(m: &Message) -> &Reply {
    match m {
        Message::Reply(r) => r,
        other => panic!("expected a reply, got {:?}", other),
    }
}

#[test]
fn a_targeted_echo_is_answered_and_routed_back() {
    let mut h = one_reactor_hub();
    let reactor = echo_reactor("reactor/echo");
    let incoming = Message::Event(event("echo hi", true));
    assert!(h.accepts_from_channel(&incoming));
    let e = expect_broadcast(h.on_channel_message(incoming));
    assert!(h.is_pending(&e.id));

    let out = reactor.dispatch_event(&e);
    assert_eq!(out.len(), 2);
    match &out[0] {
        Message::Ack(id, will) => {
            assert_eq!(id, &e.id);
            assert!(*will);
        },
        other => panic!("expected an ack, got {:?}", other),
    }
    let r = expect_reply(&out[1]);
    assert_eq!(r.text, "I heard someone say echo hi");
    assert_eq!(r.origin, "reactor/echo");
    assert_eq!(r.destination, "channel/term");
    assert_eq!(r.conversation_address, "#public");
    assert_eq!(r.from_address, "sysop");

    let mut actions = Vec::new();
    for m in out {
        assert!(h.accepts_from_reactor(&m));
        actions.push(h.on_reactor_message(m));
    }
    assert!(matches!(actions[0], HubAction::Idle));
    match &actions[1] {
        HubAction::Forward { slot, reply } => {
            assert_eq!(*slot, 0);
            assert_eq!(reply.text, "I heard someone say echo hi");
            assert_eq!(reply.destination, "channel/term");
        },
        other => panic!("expected a forward, got {:?}", other),
    }
    assert!(!h.is_pending(&e.id));
    assert_eq!(h.count_pending(), 0);
}

#[test]
fn a_targeted_event_that_nobody_answers_gets_the_fallback() {
    let mut h = one_reactor_hub();
    let reactor = echo_reactor("reactor/echo");
    let e = expect_broadcast(h.on_channel_message(Message::Event(event("hello", true))));
    let out = reactor.dispatch_event(&e);
    assert_eq!(out.len(), 1);
    assert!(matches!(&out[0], Message::Ack(id, false) if id == &e.id));
    let mut out = out;
    let action = h.on_reactor_message(out.remove(0));
    let queued = match action {
        HubAction::Requeue(m) => m,
        other => panic!("expected a requeue, got {:?}", other),
    };
    {
        let r = expect_reply(&queued);
        assert_eq!(r.text, "Does not compute.");
        assert_eq!(r.origin, "hub");
        assert_eq!(r.destination, "channel/term");
        assert_eq!(r.conversation_address, "#public");
    }
    assert!(!h.is_pending(&e.id));
    assert!(h.accepts_from_reactor(&queued));
    match h.on_reactor_message(queued) {
        HubAction::Forward { slot, reply } => {
            assert_eq!(slot, 0);
            assert_eq!(reply.text, "Does not compute.");
        },
        other => panic!("expected a forward, got {:?}", other),
    }
}

#[test]
fn an_untargeted_event_that_nobody_answers_is_met_with_silence() {
    let mut h = one_reactor_hub();
    let reactor = echo_reactor("reactor/echo");
    let e = expect_broadcast(h.on_channel_message(Message::Event(event("hello", false))));
    let mut out = reactor.dispatch_event(&e);
    assert_eq!(out.len(), 1);
    assert!(matches!(&out[0], Message::Ack(_, false)));
    assert!(matches!(h.on_reactor_message(out.remove(0)), HubAction::Idle));
    assert!(!h.is_pending(&e.id));
}

#[test]
fn untargeted_echo_is_not_taken_by_a_handler_for_targeted_events() {
    let reactor = echo_reactor("reactor/echo");
    let e = event("echo hi", false);
    let out = reactor.dispatch_event(&e);
    assert_eq!(out.len(), 1);
    assert!(matches!(&out[0], Message::Ack(_, false)));
}

#[test]
fn a_hangup_shuts_down() {
    let mut h = one_reactor_hub();
    assert!(h.accepts_from_channel(&Message::Hangup));
    assert!(matches!(h.on_channel_message(Message::Hangup), HubAction::Shutdown));
    assert!(matches!(h.on_reactor_message(Message::Hangup), HubAction::Shutdown));
    let reactor = echo_reactor("reactor/echo");
    assert!(matches!(reactor.on_message(&Message::Hangup), Step::Stop));
}

#[test]
fn a_reactor_acknowledges_before_it_acts() {
    let reactor = echo_reactor("reactor/echo");
    let e = event("echo hi", true);
    let id = e.id.clone();
    let msg = Message::Event(e);
    let (ack, matched) = match reactor.on_message(&msg) {
        Step::Dispatch { ack, matched } => (ack, matched),
        other => panic!("expected an acknowledgement, got {:?}", other),
    };
    assert!(matches!(ack, Message::Ack(got, true) if got == id));
    assert_eq!(matched, vec![0]);
    let e = match &msg {
        Message::Event(e) => e,
        _ => unreachable!(),
    };
    let (ack, again) = reactor.acknowledge(e);
    assert!(matches!(ack, Message::Ack(got, true) if got == id));
    assert_eq!(again, vec![0]);
    let out = reactor.act(0, e);
    assert_eq!(out.len(), 1);
    assert_eq!(expect_reply(&out[0]).text, "I heard someone say echo hi");
    let quiet = event("hello", true);
    match reactor.on_message(&Message::Event(quiet)) {
        Step::Dispatch { ack, matched } => {
            assert!(matches!(ack, Message::Ack(_, false)));
            assert!(matched.is_empty());
        },
        other => panic!("expected an acknowledgement, got {:?}", other),
    }
    assert!(matches!(reactor.on_message(&Message::Ack("x".to_string(), true)), Step::Skip));
}

#[test]
fn one_of_two_reactors_answers_and_no_fallback_comes() {
    let mut h = hub::new();
    h.assemble_reactor("one").ok().unwrap();
    h.assemble_reactor("two").ok().unwrap();
    h.assemble_channel("term").ok().unwrap();
    assert_eq!(h.count_reactors(), 2);
    let e = expect_broadcast(h.on_channel_message(Message::Event(event("echo hi", true))));
    let one = echo_reactor("reactor/one");
    let reply = one.reply_to(&e, "real answer");

    assert!(matches!(h.on_reactor_message(Message::Ack(e.id.clone(), true)), HubAction::Idle));
    assert!(h.is_pending(&e.id));
    match h.on_reactor_message(reply) {
        HubAction::Forward { slot, reply } => {
            assert_eq!(slot, 0);
            assert_eq!(reply.text, "real answer");
            assert_eq!(reply.origin, "reactor/one");
        },
        other => panic!("expected a forward, got {:?}", other),
    }
    assert!(matches!(h.on_reactor_message(Message::Ack(e.id.clone(), false)), HubAction::Idle));
    assert!(!h.is_pending(&e.id));
}

#[test]
fn acks_count_in_any_order() {
    for first in [true, false] {
        let mut h = hub::new();
        h.assemble_reactor("one").ok().unwrap();
        h.assemble_reactor("two").ok().unwrap();
        h.assemble_channel("term").ok().unwrap();
        let e = expect_broadcast(h.on_channel_message(Message::Event(event("hello", true))));
        assert!(matches!(h.on_reactor_message(Message::Ack(e.id.clone(), first)), HubAction::Idle));
        assert!(matches!(h.on_reactor_message(Message::Ack(e.id.clone(), !first)), HubAction::Idle));
        assert!(!h.is_pending(&e.id));
    }
}

#[test]
fn two_silent_reactors_set_one_fallback_free_with_the_last_ack() {
    let mut h = hub::new();
    h.assemble_reactor("one").ok().unwrap();
    h.assemble_reactor("two").ok().unwrap();
    h.assemble_channel("term").ok().unwrap();
    let e = expect_broadcast(h.on_channel_message(Message::Event(event("hello", true))));
    assert!(matches!(h.on_reactor_message(Message::Ack(e.id.clone(), false)), HubAction::Idle));
    assert!(h.is_pending(&e.id));
    assert!(matches!(
        h.on_reactor_message(Message::Ack(e.id.clone(), false)),
        HubAction::Requeue(Message::Reply(_))
    ));
    assert!(!h.is_pending(&e.id));
    assert!(!h.accepts_from_reactor(&Message::Ack(e.id.clone(), false)));
}

#[test]
fn acks_for_one_event_leave_another_alone() {
    let mut h = one_reactor_hub();
    let a = expect_broadcast(h.on_channel_message(Message::Event(event("hello", true))));
    let b = expect_broadcast(h.on_channel_message(Message::Event(event("hello", false))));
    assert_ne!(a.id, b.id);
    assert_eq!(h.count_pending(), 2);
    assert!(matches!(h.on_reactor_message(Message::Ack(b.id.clone(), false)), HubAction::Idle));
    assert!(h.is_pending(&a.id));
    assert!(!h.is_pending(&b.id));
}

#[test]
fn a_reply_to_an_unknown_channel_is_not_accepted() {
    let h = one_reactor_hub();
    let mut e = event("x", true);
    e.origin = "channel/nowhere".to_string();
    let reply = e.reply("text", "reactor/echo");
    assert!(!h.accepts_from_reactor(&reply));
    assert!(!h.accepts_from_reactor(&Message::Ack("no such id".to_string(), true)));
    assert!(!h.accepts_from_channel(&Message::Ack("id".to_string(), true)));
}

#[test]
fn replies_go_to_the_slot_of_the_channel_they_name() {
    let mut h = hub::new();
    h.assemble_reactor("echo").ok().unwrap();
    h.assemble_channel("term").ok().unwrap();
    h.assemble_channel("slack").ok().unwrap();
    assert_eq!(h.count_channels(), 2);
    assert_eq!(h.channel_slot("channel/term"), Some(0));
    assert_eq!(h.channel_slot("channel/slack"), Some(1));
    assert_eq!(h.channel_slot("slack"), None);
    let mut e = event("x", true);
    e.origin = "channel/slack".to_string();
    match h.on_reactor_message(e.reply("hi", "reactor/echo")) {
        HubAction::Forward { slot, reply } => {
            assert_eq!(slot, 1);
            assert_eq!(reply.destination, "channel/slack");
        },
        other => panic!("expected a forward, got {:?}", other),
    }
}

#[test]
fn a_second_component_of_the_same_name_is_refused() {
    let mut h = one_reactor_hub();
    match h.assemble_channel("term") {
        Err(AssemblyError::DuplicateName(n)) => assert_eq!(n, "channel/term"),
        Ok(n) => panic!("registered {} twice", n),
    }
    match h.assemble_reactor("echo") {
        Err(AssemblyError::DuplicateName(n)) => assert_eq!(n, "reactor/echo"),
        Ok(n) => panic!("registered {} twice", n),
    }
    assert_eq!(h.count_channels(), 1);
    assert_eq!(h.count_reactors(), 1);
}

#[test]
fn the_hub_passes_over_what_does_not_concern_it() {
    let mut h = one_reactor_hub();
    assert!(matches!(h.on_reactor_message(Message::Event(event("x", true))), HubAction::Idle));
    let r = event("x", true).reply("y", "z");
    assert!(matches!(h.on_channel_message(r), HubAction::Idle));
    assert_eq!(h.count_pending(), 0);
}

#[test]
fn an_event_with_a_pending_id_starts_to_wait_anew() {
    let mut h = hub::new();
    h.assemble_reactor("one").ok().unwrap();
    h.assemble_reactor("two").ok().unwrap();
    h.assemble_channel("term").ok().unwrap();
    let first = event("hello", true);
    let id = first.id.clone();
    let mut again = event("hello again", false);
    again.id = id.clone();
    h.on_channel_message(Message::Event(first));
    assert!(matches!(h.on_reactor_message(Message::Ack(id.clone(), false)), HubAction::Idle));
    h.on_channel_message(Message::Event(again));
    assert_eq!(h.count_pending(), 1);
    assert!(matches!(h.on_reactor_message(Message::Ack(id.clone(), false)), HubAction::Idle));
    assert!(h.is_pending(&id));
    assert!(matches!(h.on_reactor_message(Message::Ack(id.clone(), false)), HubAction::Idle));
    assert!(!h.is_pending(&id));
}

fn directory_with_alice() -> Directory {
    let mut d = Directory::new();
    let users = vec![UserRow {
        username: "alice".to_string(),
        lp_id: ColumnValue::Text("lp-1".to_string()),
        is_master: ColumnValue::Integer(1),
        is_virtual: ColumnValue::Integer(0),
        is_deleted: ColumnValue::Null,
    }];
    let identities = vec![IdentityRow {
        username: "alice".to_string(),
        identity_name: "term".to_string(),
        identity_value: "sysop".to_string(),
    }];
    d.load_users(&users, &identities);
    d
}

#[test]
fn the_hub_attaches_the_sender_before_it_broadcasts() {
    let mut h = one_reactor_hub();
    h.set_directory(directory_with_alice());
    let e = expect_broadcast(h.on_channel_message(Message::Event(event("echo hi", true))));
    let u: &User = e.user.as_ref().expect("the sender is known");
    assert_eq!(u.username, "alice");
    assert_eq!(u.lp_id.as_deref(), Some("lp-1"));
    assert!(u.is_master);
    assert!(!u.is_virtual);
    assert!(!u.is_deleted);
    let reactor = echo_reactor("reactor/echo");
    let out = reactor.dispatch_event(&e);
    assert_eq!(expect_reply(&out[1]).text, "I heard alice say echo hi");
    assert_eq!(expect_reply(&reactor.handle_echo(&e)).text, "I heard alice say echo hi");
    assert_eq!(reactor.get_core().name(), "reactor/echo");
}

#[test]
fn an_unknown_sender_stays_unknown() {
    let mut h = one_reactor_hub();
    h.set_directory(directory_with_alice());
    let mut ev = event("echo hi", true);
    ev.from_address = "stranger".to_string();
    let e = expect_broadcast(h.on_channel_message(Message::Event(ev)));
    assert!(e.user.is_none());
    let t = h.transmogrify_event(&event("x", false));
    assert_eq!(t.user.map(|u| u.username), Some("alice".to_string()));
}

#[test]
fn an_identity_without_a_user_is_not_admitted() {
    let mut d = Directory::new();
    d.insert_identity(&IdentityRow {
        username: "ghost".to_string(),
        identity_name: "term".to_string(),
        identity_value: "sysop".to_string(),
    });
    let e = event("x", true);
    assert!(!d.resolves(&e));
    let mut h = one_reactor_hub();
    h.set_directory(d);
    assert!(!h.accepts_from_channel(&Message::Event(e)));
}
