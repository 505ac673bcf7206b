use synergy::config::ComponentConfig;
use synergy::message::{Event, EventView, Message, Reply};
use synergy::reactor::clox::{self, line_for, name_day, Reading};
use synergy::reactor::{Dispatching, EventTest, Handler, Predicate, Reactor, Seed, Step, Type};
use synergy::strmap::StrMap;
use synergy::user::{ColumnValue, MinimalUser, User, UserRow};
use synergy::user_directory::{Directory, IdentityRow};

fn event(text: &str, was_targeted: bool) -> Event {
    Event {
        text: text.to_string(),
        is_public: true,
        was_targeted,
        from_address: "U1".to_string(),
        conversation_address: "C1".to_string(),
        origin: "channel/slack".to_string(),
        user: None,
        id: "id-1".to_string(),
    }
}

fn row(name: &str, lp: ColumnValue, master: ColumnValue) -> UserRow {
    UserRow {
        username: name.to_string(),
        lp_id: lp,
        is_master: master,
        is_virtual: ColumnValue::Integer(0),
        is_deleted: ColumnValue::Integer(7),
    }
}

#[test]
fn ids_are_fresh_and_hyphenated() {
    let a = Event::new_id();
    let b = Event::new_id();
    assert_ne!(a, b);
    for id in [a, b] {
        let cs: Vec<char> = id.chars().collect();
        assert_eq!(cs.len(), 36);
        assert_eq!(id.matches('-').count(), 4);
        for at in [8, 13, 18, 23] {
            assert_eq!(cs[at], '-');
        }
        assert_eq!(cs[14], '4');
    }
}

#[test]
fn a_reply_goes_back_where_the_event_came_from() {
    let e = event("hello", true);
    match e.reply("answer", "reactor/x") {
        Message::Reply(Reply { text, from_address, conversation_address, origin, destination }) => {
            assert_eq!(text, "answer");
            assert_eq!(from_address, "U1");
            assert_eq!(conversation_address, "C1");
            assert_eq!(origin, "reactor/x");
            assert_eq!(destination, "channel/slack");
        },
        other => panic!("expected a reply, got {:?}", other),
    }
}

#[test]
fn a_copy_of_an_event_holds_the_same() {
    let mut e = event("hello", true);
    let mut u = User::from_row(&row("alice", ColumnValue::Null, ColumnValue::Integer(1)));
    u.add_identity("channel/slack".to_string(), "U1".to_string());
    e.user = Some(u);
    let c = e.dupe();
    assert_eq!(c.text, "hello");
    assert!(c.is_public);
    assert!(c.was_targeted);
    assert_eq!(c.from_address, "U1");
    assert_eq!(c.conversation_address, "C1");
    assert_eq!(c.origin, "channel/slack");
    assert_eq!(c.id, "id-1");
    let cu = c.user.expect("the user is copied");
    assert_eq!(cu.username, "alice");
    assert_eq!(cu.identities.get("channel/slack").map(|s| s.as_str()), Some("U1"));
    let r = Reply {
        text: "t".to_string(),
        from_address: "f".to_string(),
        conversation_address: "c".to_string(),
        origin: "o".to_string(),
        destination: "d".to_string(),
    };
    let rc = r.clone();
    assert_eq!((rc.text, rc.from_address, rc.conversation_address, rc.origin, rc.destination),
        ("t".to_string(), "f".to_string(), "c".to_string(), "o".to_string(), "d".to_string()));
}

#[test]
fn a_row_becomes_a_user() {
    let u = User::from_row(&row("alice", ColumnValue::Text("lp".to_string()), ColumnValue::Integer(1)));
    assert_eq!(u.username, "alice");
    assert_eq!(u.lp_id.as_deref(), Some("lp"));
    assert!(u.is_master);
    assert!(!u.is_virtual);
    assert!(u.is_deleted);
    assert_eq!(u.identities.len(), 0);
    let u = User::from_row(&row("bob", ColumnValue::Integer(3), ColumnValue::Text("1".to_string())));
    assert_eq!(u.lp_id, None);
    assert!(!u.is_master);
    let u = User::from_row(&row("carol", ColumnValue::Null, ColumnValue::Real));
    assert_eq!(u.lp_id, None);
    assert!(!u.is_master);
    let u = User::from_row(&row("dave", ColumnValue::Blob(vec![1]), ColumnValue::Null));
    assert_eq!(u.lp_id, None);
    assert!(!u.is_master);
    assert!(ColumnValue::Integer(-1).as_flag());
    assert!(!ColumnValue::Integer(0).as_flag());
    assert_eq!(ColumnValue::Text("x".to_string()).as_text().as_deref(), Some("x"));
}

#[test]
fn identities_are_kept_by_channel() {
    let mut u = User::from_row(&row("alice", ColumnValue::Null, ColumnValue::Null));
    u.add_identity("slack".to_string(), "U1".to_string());
    u.add_identity("term".to_string(), "sysop".to_string());
    u.add_identity("slack".to_string(), "U9".to_string());
    assert_eq!(u.identities.len(), 2);
    assert_eq!(u.identities.get("slack").map(|s| s.as_str()), Some("U9"));
    let c = u.clone();
    assert_eq!(c.username, "alice");
    assert_eq!(c.identities.get("term").map(|s| s.as_str()), Some("sysop"));
    let m = MinimalUser::from(&u);
    assert_eq!(m.username, "alice");
    assert_eq!(m.lp_id, None);
    assert!(!m.is_master && !m.is_virtual && m.is_deleted);
    let mc = m.clone();
    assert_eq!(mc.username, "alice");
}

#[test]
fn the_directory_resolves_by_channel_and_address() {
    let mut d = Directory::new();
    d.load_users(
        &vec![
            row("alice", ColumnValue::Null, ColumnValue::Integer(1)),
            row("bob", ColumnValue::Null, ColumnValue::Null),
            row("alice", ColumnValue::Text("second".to_string()), ColumnValue::Null),
        ],
        &vec![
            IdentityRow {
                username: "alice".to_string(),
                identity_name: "slack".to_string(),
                identity_value: "U1".to_string(),
            },
            IdentityRow {
                username: "bob".to_string(),
                identity_name: "slack".to_string(),
                identity_value: "U2".to_string(),
            },
            IdentityRow {
                username: "bob".to_string(),
                identity_name: "term".to_string(),
                identity_value: "U1".to_string(),
            },
        ],
    );
    let e = event("x", true);
    assert!(d.resolves(&e));
    let u = d.resolve_user(&e).expect("alice is known on slack as U1");
    assert_eq!(u.username, "alice");
    assert_eq!(u.lp_id.as_deref(), Some("second"));
    assert!(!u.is_master);

    let mut other = event("x", true);
    other.origin = "channel/term".to_string();
    assert_eq!(d.resolve_user(&other).map(|u| u.username), Some("bob".to_string()));
    other.origin = "slack".to_string();
    assert!(d.resolve_user(&other).is_none());
    other.origin = "channel/slack".to_string();
    other.from_address = "U3".to_string();
    assert!(d.resolve_user(&other).is_none());
    assert_eq!(d.lookup_name("channel/slack", "U2").map(|s| s.as_str()), Some("bob"));
    assert_eq!(d.lookup_name("channel/irc", "U2"), None);
}

#[test]
fn a_later_identity_row_takes_the_address_over() {
    let mut d = Directory::new();
    d.insert_user(User::from_row(&row("alice", ColumnValue::Null, ColumnValue::Null)));
    d.insert_user(User::from_row(&row("bob", ColumnValue::Null, ColumnValue::Null)));
    for who in ["alice", "bob"] {
        d.insert_identity(&IdentityRow {
            username: who.to_string(),
            identity_name: "slack".to_string(),
            identity_value: "U1".to_string(),
        });
    }
    assert_eq!(d.resolve_user(&event("x", true)).map(|u| u.username), Some("bob".to_string()));
}

fn handler(prefix: &str, require_targeted: bool, will_respond: bool, key: u8) -> Handler<u8, Predicate> {
    Handler {
        predicate: Predicate::TextStartsWith(prefix.to_string()),
        require_targeted,
        will_respond,
        key,
    }
}

#[test]
fn handlers_are_evaluated_in_order() {
    let core = synergy::reactor::Core {
        name: "reactor/test".to_string(),
        handlers: vec![
            handler("a", true, false, 1),
            handler("ab", false, false, 2),
            handler("x", false, true, 3),
            handler("", false, true, 4),
            handler("abc", true, true, 5),
        ],
    };
    assert_eq!(core.name(), "reactor/test");
    assert_eq!(core.handlers().len(), 5);
    assert_eq!(core.evaluate(&event("abc", true)), (vec![0, 1, 3, 4], true));
    assert_eq!(core.evaluate(&event("abc", false)), (vec![1, 3], true));
    assert_eq!(core.evaluate(&event("ab", true)), (vec![0, 1, 3], true));
    let quiet = synergy::reactor::Core {
        name: "reactor/quiet".to_string(),
        handlers: vec![handler("a", true, false, 1), handler("b", false, true, 2)],
    };
    assert_eq!(quiet.evaluate(&event("abc", true)), (vec![0], false));
    assert_eq!(quiet.evaluate(&event("abc", false)), (vec![], false));
    assert!(quiet.handlers()[0].matches(&event("abc", false)));
    assert!(!quiet.handlers()[1].matches(&event("abc", false)));
    assert!(Predicate::TextStartsWith("ab".to_string()).test(&event("abc", false)));
}

fn clox_reactor() -> clox::Clox {
    clox::new(Seed {
        name: "reactor/clox".to_string(),
        config: ComponentConfig { class: Type::CloxReactor, extra: StrMap::new() },
    })
}

#[test]
fn days_are_called_by_name_when_near() {
    assert_eq!(name_day(-2, "2020-01-01"), "the day before yesterday");
    assert_eq!(name_day(-1, "2020-01-01"), "yesterday");
    assert_eq!(name_day(0, "2020-01-01"), "today");
    assert_eq!(name_day(1, "2020-01-01"), "tomorrow");
    assert_eq!(name_day(2, "2020-01-01"), "the day after tomorrow");
    assert_eq!(name_day(3, "2020-01-01"), "2020-01-01");
    assert_eq!(name_day(-3, "2020-01-01"), "2020-01-01");
    let r = Reading { date: "2020-03-02".to_string(), time: "07:05".to_string(), day: 737486 };
    assert_eq!(line_for("AT", &r, 737485), "\nAT tomorrow at 07:05");
    assert_eq!(line_for("AT", &r, 737480), "\nAT 2020-03-02 at 07:05");
}

#[test]
fn the_clock_tells_the_time_around_the_world() {
    let mut c = clox_reactor();
    // 2020-03-01 23:30:00 UTC
    c.wind(1583105400, 20);
    let mut e = event("clox", true);
    e.id = "id-9".to_string();
    let out = c.dispatch_event(&e);
    assert_eq!(out.len(), 2);
    assert!(matches!(&out[0], Message::Ack(id, true) if id == "id-9"));
    let expected = "In Internet Time™ it's 2020-03-02@20. That's...\
        \n🇺🇸 today at 18:30\
        \n🇺🇳 today at 23:30\
        \n🇦🇹 tomorrow at 00:30\
        \n🇮🇳 tomorrow at 05:00\
        \n🇦🇺 tomorrow at 10:30";
    match &out[1] {
        Message::Reply(r) => {
            assert_eq!(r.text, expected);
            assert_eq!(r.origin, "reactor/clox");
            assert_eq!(r.destination, "channel/slack");
        },
        other => panic!("expected a reply, got {:?}", other),
    }
    match c.handle_clox(&e) {
        Some(Message::Reply(r)) => assert_eq!(r.text, expected),
        other => panic!("expected a reply, got {:?}", other),
    }
    assert_eq!(c.get_core().name(), "reactor/clox");
}

#[test]
fn the_clock_follows_daylight_saving() {
    let mut c = clox_reactor();
    // 2020-07-01 12:00:00 UTC
    c.wind(1593604800, 541);
    let e = event("clox", true);
    match c.handle_clox(&e) {
        Some(Message::Reply(r)) => assert_eq!(
            r.text,
            "In Internet Time™ it's 2020-07-01@541. That's...\
            \n🇺🇸 today at 08:00\
            \n🇺🇳 today at 12:00\
            \n🇦🇹 today at 14:00\
            \n🇮🇳 today at 17:30\
            \n🇦🇺 today at 22:00"
        ),
        other => panic!("expected a reply, got {:?}", other),
    }
}

#[test]
fn the_clock_is_silent_at_the_edges_of_time() {
    let mut c = clox_reactor();
    let e = event("clox", true);
    // The last second that can be told in Greenwich, and the first one.
    for now in [8210266876799, -8334601228800, i64::MAX, i64::MIN] {
        c.wind(now, 0);
        assert!(c.handle_clox(&e).is_none());
        assert_eq!(c.dispatch_event(&e).len(), 1);
    }
    // Well inside the range the clock speaks.
    for now in [8210266876799 - 3 * 86400, -8334601228800 + 3 * 86400, 0] {
        c.wind(now, 0);
        assert!(c.handle_clox(&e).is_some());
    }
}

struct LongerThan(usize);

impl EventTest for LongerThan {
    // Contracts alone speak of this one; nothing ever calls it.
    fn holds(&self, _: EventView) -> bool {
        unreachable!()
    }

    fn test(&self, e: &Event) -> bool {
        e.text.chars().count() > self.0
    }
}

#[test]
fn a_handler_can_ask_a_test_of_its_own() {
    let core = synergy::reactor::Core {
        name: "reactor/long".to_string(),
        handlers: vec![
            Handler { predicate: LongerThan(3), require_targeted: false, will_respond: true, key: 1u8 },
            Handler { predicate: LongerThan(0), require_targeted: true, will_respond: false, key: 2u8 },
        ],
    };
    assert_eq!(core.evaluate(&event("abcd", false)), (vec![0], true));
    assert_eq!(core.evaluate(&event("abc", true)), (vec![1], false));
    assert_eq!(core.evaluate(&event("", true)), (vec![], false));
    assert!(core.handlers()[0].matches(&event("abcd", false)));
}

#[test]
fn the_clock_is_silent_out_of_range_and_for_other_words() {
    let mut c = clox_reactor();
    c.wind(i64::MAX, 0);
    let e = event("clox", true);
    assert!(c.handle_clox(&e).is_none());
    let out = c.dispatch_event(&e);
    assert_eq!(out.len(), 1);
    assert!(matches!(&out[0], Message::Ack(_, true)));
    c.wind(0, 0);
    let out = c.dispatch_event(&event("time?", true));
    assert_eq!(out.len(), 1);
    assert!(matches!(&out[0], Message::Ack(_, false)));
    assert!(matches!(c.on_message(&Message::Ack("x".to_string(), true)), Step::Skip));
    match c.on_message(&Message::Event(event("clox", false))) {
        Step::Dispatch { ack, matched } => {
            assert!(matches!(ack, Message::Ack(id, false) if id == "id-1"));
            assert!(matched.is_empty());
        },
        other => panic!("expected an acknowledgement, got {:?}", other),
    }
    let e = event("clox", true);
    match c.on_message(&Message::Event(e.dupe())) {
        Step::Dispatch { ack, matched } => {
            assert!(matches!(ack, Message::Ack(id, true) if id == "id-1"));
            assert_eq!(matched, vec![0]);
            let out = c.act(0, &e);
            assert_eq!(out.len(), 1);
            assert!(matches!(&out[0], Message::Reply(r) if r.destination == "channel/slack"));
        },
        other => panic!("expected an acknowledgement, got {:?}", other),
    }
}

#[test]
fn an_event_finds_its_sender_among_the_users() {
    let mut users: StrMap<User> = StrMap::new();
    let mut alice = User::from_row(&row("alice", ColumnValue::Null, ColumnValue::Null));
    alice.add_identity("channel/slack".to_string(), "U1".to_string());
    let mut bob = User::from_row(&row("bob", ColumnValue::Null, ColumnValue::Null));
    bob.add_identity("channel/slack".to_string(), "U2".to_string());
    bob.add_identity("channel/term".to_string(), "U1".to_string());
    users.insert("alice".to_string(), alice);
    users.insert("bob".to_string(), bob);

    let fresh = |channel: &str, address: &str| synergy::event::Event {
        kind: synergy::event::EventType::Message,
        from_user: None,
        text: "hello".to_string(),
        is_public: true,
        was_targeted: false,
        from_address: address.to_string(),
        conversation_address: "C1".to_string(),
        from_channel_name: channel.to_string(),
    };

    let mut e = fresh("channel/slack", "U2");
    e.ensure_complete(&users);
    assert_eq!(e.from_user.as_ref().map(|u| u.username.as_str()), Some("bob"));
    assert_eq!(e.text, "hello");
    assert_eq!(e.from_channel_name, "channel/slack");

    let mut e = fresh("channel/term", "U1");
    e.ensure_complete(&users);
    assert_eq!(e.from_user.as_ref().map(|u| u.username.as_str()), Some("bob"));

    let mut e = fresh("channel/slack", "U1");
    e.ensure_complete(&users);
    assert_eq!(e.from_user.as_ref().map(|u| u.username.as_str()), Some("alice"));

    let mut e = fresh("channel/irc", "U1");
    e.ensure_complete(&users);
    assert!(e.from_user.is_none());

    let mut e = fresh("channel/slack", "U3");
    e.from_user = Some(User::from_row(&row("carol", ColumnValue::Null, ColumnValue::Null)));
    e.ensure_complete(&users);
    assert_eq!(e.from_user.as_ref().map(|u| u.username.as_str()), Some("carol"));
}
