use synergy::channel::slack::{
    self, Frame, FrameStep, Member, RawEvent, Slack, SlackIdentity, WriteStep, Written,
};
use synergy::channel::term::{self, TermStep};
use synergy::channel::{Catching, CatchStep, Channel, ReplyResponse, Seed, Type};
use synergy::config::{ComponentConfig, ConfigValue};
use synergy::message::{Event, Message, Reply};
use synergy::strmap::StrMap;

fn reply(text: &str) -> Reply {
    Reply {
        text: text.to_string(),
        from_address: "sysop".to_string(),
        conversation_address: "#public".to_string(),
        origin: "reactor/echo".to_string(),
        destination: "channel/term".to_string(),
    }
}

fn term_seed(extra: Vec<(&str, ConfigValue)>) -> Seed {
    let mut map = StrMap::new();
    for (k, v) in extra {
        map.insert(k.to_string(), v);
    }
    Seed { name: "channel/term".to_string(), config: ComponentConfig { class: Type::TermChannel, extra: map } }
}

fn slack_channel() -> Slack {
    let mut map = StrMap::new();
    map.insert("api_token".to_string(), ConfigValue::Text("token-for-tests".to_string()));
    let mut s = slack::new(Seed {
        name: "channel/slack".to_string(),
        config: ComponentConfig { class: Type::SlackChannel, extra: map },
    });
    let members = vec![
        Member { id: "U1".to_string(), name: "alice".to_string() },
        Member { id: "U2".to_string(), name: "bob".to_string() },
    ];
    s.connected(
        SlackIdentity { id: "UBOT".to_string(), name: "synergy".to_string() },
        slack::load_users(true, &members),
    );
    s
}

fn assert_id(id: &str) {
    let cs: Vec<char> = id.chars().collect();
    assert_eq!(cs.len(), 36);
    for at in [8, 13, 18, 23] {
        assert_eq!(cs[at], '-');
    }
    assert_eq!(cs[14], '4');
}

fn raw(channel: &str, text: &str) -> RawEvent {
    RawEvent {
        ts: "1.0".to_string(),
        kind: "message".to_string(),
        subtype: None,
        channel: channel.to_string(),
        text: text.to_string(),
        user: "U1".to_string(),
        bot_id: None,
    }
}

#[test]
fn the_terminal_reads_its_addresses_from_the_configuration() {
    let t = term::new(term_seed(vec![]));
    assert_eq!(t.name, "channel/term");
    assert_eq!(t.from_addr, "sysop");
    assert_eq!(t.default_public_reply_addr, "#public");
    let t = term::new(term_seed(vec![
        ("from_address", ConfigValue::Text("rjbs".to_string())),
        ("public_reply_addr", ConfigValue::Integer(3)),
    ]));
    assert_eq!(t.from_addr, "rjbs");
    assert_eq!(t.default_public_reply_addr, "#public");
}

#[test]
fn the_terminal_indents_what_it_shows() {
    let t = term::new(term_seed(vec![]));
    assert_eq!(t.send_reply(reply("one\ntwo")), ">> channel/term!#public |\n  one\n  two");
    assert_eq!(t.send_reply(reply("")), ">> channel/term!#public |\n  ");
}

#[test]
fn a_line_from_the_terminal_becomes_an_event() {
    let t = term::new(term_seed(vec![]));
    match t.on_line("  echo hi \n") {
        TermStep::Send(Message::Event(e)) => {
            assert_eq!(e.text, "echo hi");
            assert!(!e.is_public);
            assert!(e.was_targeted);
            assert_eq!(e.from_address, "sysop");
            assert_eq!(e.conversation_address, "#public");
            assert_eq!(e.origin, "channel/term");
            assert!(e.user.is_none());
            assert_id(&e.id);
        },
        other => panic!("expected an event, got {:?}", other),
    }
    assert!(matches!(t.on_line("\n"), TermStep::Skip));
    assert!(matches!(t.on_line("   \n"), TermStep::Skip));
    assert!(matches!(t.on_line(""), TermStep::Hangup));
}

#[test]
fn looking_into_the_mailbox_goes_step_by_step() {
    let t = term::new(term_seed(vec![]));
    let mut did_send = false;
    assert!(matches!(t.catch_step(&mut did_send, None), CatchStep::Done(ReplyResponse::Empty)));
    assert!(matches!(
        t.catch_step(&mut did_send, Some(Message::Ack("x".to_string(), true))),
        CatchStep::Again
    ));
    assert!(!did_send);
    match t.catch_step(&mut did_send, Some(Message::Reply(reply("hi")))) {
        CatchStep::Deliver(s) => assert_eq!(s, ">> channel/term!#public |\n  hi"),
        _ => panic!("expected a delivery"),
    }
    assert!(did_send);
    assert!(matches!(t.catch_step(&mut did_send, None), CatchStep::Done(ReplyResponse::Sent)));
    assert!(matches!(
        t.catch_step(&mut did_send, Some(Message::Hangup)),
        CatchStep::Done(ReplyResponse::Hangup)
    ));
}

#[test]
fn a_mailbox_is_emptied_up_to_the_first_hangup() {
    let t = term::new(term_seed(vec![]));
    let (resp, out) = t.catch_replies(vec![]);
    assert_eq!(resp, ReplyResponse::Empty);
    assert!(out.is_empty());

    let (resp, out) = t.catch_replies(vec![
        Message::Reply(reply("a")),
        Message::Ack("x".to_string(), false),
        Message::Reply(reply("b")),
    ]);
    assert_eq!(resp, ReplyResponse::Sent);
    assert_eq!(out, vec![">> channel/term!#public |\n  a", ">> channel/term!#public |\n  b"]);

    let (resp, out) = t.catch_replies(vec![
        Message::Reply(reply("a")),
        Message::Hangup,
        Message::Reply(reply("b")),
        Message::Hangup,
    ]);
    assert_eq!(resp, ReplyResponse::Hangup);
    assert_eq!(out, vec![">> channel/term!#public |\n  a"]);

    let (resp, out) = t.catch_replies(vec![Message::Ack("x".to_string(), true)]);
    assert_eq!(resp, ReplyResponse::Empty);
    assert!(out.is_empty());
}

#[test]
fn slack_takes_a_reply_as_a_message() {
    let s = slack_channel();
    let out = s.send_reply(reply("hello"));
    assert_eq!(out.kind, "message");
    assert_eq!(out.channel, "#public");
    assert_eq!(out.text, "hello");
}

#[test]
fn slack_knows_its_token_and_its_name() {
    let s = slack_channel();
    assert_eq!(s.name, "channel/slack");
    assert_eq!(s.api_token, "token-for-tests");
    assert_eq!(s.our_name.as_deref(), Some("synergy"));
    assert_eq!(s.our_id.as_deref(), Some("UBOT"));
    assert_eq!(s.targeted_re, "^(?i)@?synergy:?\\s+");
    assert_eq!(s.username_for("U2").as_deref(), Some("bob"));
    assert_eq!(s.username_for("U3"), None);
    assert_eq!(slack::url_for("users.list"), "https://slack.com/api/users.list");
}

#[test]
fn a_failed_listing_gives_no_users_and_a_later_entry_wins() {
    assert!(slack::load_users(false, &vec![]).is_none());
    let members = vec![
        Member { id: "U1".to_string(), name: "old".to_string() },
        Member { id: "U1".to_string(), name: "new".to_string() },
    ];
    let users = slack::load_users(true, &members).expect("the listing was fine");
    assert_eq!(users.len(), 1);
    assert_eq!(users.get("U1").map(|s| s.as_str()), Some("new"));
}

#[test]
fn a_closing_frame_ends_the_worker_with_a_hangup() {
    assert!(matches!(slack::on_frame(Frame::Close), FrameStep::Hangup));
}

#[test]
fn only_text_frames_are_read_as_events() {
    match slack::on_frame(Frame::Text("{}".to_string())) {
        FrameStep::Parse(text) => assert_eq!(text, "{}"),
        other => panic!("expected a text to read, got {:?}", other),
    }
    assert!(matches!(slack::on_frame(Frame::Other), FrameStep::Skip));
}

#[test]
fn a_failed_write_goes_on_and_a_closed_socket_hangs_up() {
    assert!(matches!(slack::on_written(Written::Sent), WriteStep::GoOn));
    assert!(matches!(slack::on_written(Written::Failed), WriteStep::GoOn));
    assert!(matches!(slack::on_written(Written::Closed), WriteStep::Hangup));
}

#[test]
fn markup_becomes_plain_text() {
    let s = slack_channel();
    let d = |t: &str| s.decode_slack_formatting(t.to_string());
    assert_eq!(d("hi <@U1>!").as_deref(), Some("hi @alice!"));
    assert_eq!(d("<@U1> <@U2>").as_deref(), Some("@alice @bob"));
    assert_eq!(d("see <#C123|general> now").as_deref(), Some("see #general now"));
    assert_eq!(d("mail <mailto:a@b.example|a@b.example>").as_deref(), Some("mail a@b.example"));
    assert_eq!(d("go <https://example.com/x|here>").as_deref(), Some("go here"));
    assert_eq!(d("bare <https://example.com/x>").as_deref(), Some("bare https://example.com/x"));
    assert_eq!(d("1 &lt; 2 &amp;&amp; 3 &gt; 2").as_deref(), Some("1 < 2 && 3 > 2"));
    assert_eq!(d("&amp;lt;").as_deref(), Some("&lt;"));
    assert_eq!(d("").as_deref(), Some(""));
}

#[test]
fn plain_text_is_left_as_it_is() {
    let s = slack_channel();
    for t in ["hello world", "echo hi", "a | b # c @ d", "™ ünïcode"] {
        let once = s.decode_slack_formatting(t.to_string()).expect("plain text decodes");
        assert_eq!(once, t);
        assert_eq!(s.decode_slack_formatting(once.clone()).as_deref(), Some(t));
    }
}

#[test]
fn a_mention_of_an_unlisted_user_cannot_be_decoded() {
    let s = slack_channel();
    assert_eq!(s.decode_slack_formatting("hi <@U404>".to_string()), None);
    assert!(s.event_from_raw(raw("C1", "hi <@U404>")).is_none());
}

#[test]
fn the_bots_name_at_the_front_marks_an_event_as_targeted() {
    let s = slack_channel();
    let e: Event = s.event_from_raw(raw("C1", "synergy: echo hi")).expect("an event");
    assert_eq!(e.text, "echo hi");
    assert!(e.was_targeted);
    assert!(e.is_public);
    assert_eq!(e.from_address, "U1");
    assert_eq!(e.conversation_address, "C1");
    assert_eq!(e.origin, "channel/slack");
    assert!(e.user.is_none());
    assert_id(&e.id);

    let e = s.event_from_raw(raw("C1", "@SYNERGY   echo hi")).expect("an event");
    assert_eq!(e.text, "echo hi");
    assert!(e.was_targeted);

    let e = s.event_from_raw(raw("C1", "hello synergy: echo")).expect("an event");
    assert_eq!(e.text, "hello synergy: echo");
    assert!(!e.was_targeted);

    let e = s.event_from_raw(raw("G1", "hello")).expect("an event");
    assert!(!e.was_targeted);
    assert!(!e.is_public);
}

#[test]
fn a_direct_conversation_is_always_targeted() {
    let s = slack_channel();
    let e = s.event_from_raw(raw("D1", "hello")).expect("an event");
    assert_eq!(e.text, "hello");
    assert!(e.was_targeted);
    assert!(!e.is_public);
    let e = s.event_from_raw(raw("D1", "synergy synergy: x")).expect("an event");
    assert_eq!(e.text, "synergy: x");
    assert!(e.was_targeted);
}

#[test]
fn a_name_that_is_no_pattern_yields_no_events() {
    let mut s = slack_channel();
    s.connected(SlackIdentity { id: "UBOT".to_string(), name: "(".to_string() }, None);
    assert!(s.event_from_raw(raw("C1", "hello")).is_none());
}

#[test]
fn configuration_text_is_read_by_key() {
    let seed = term_seed(vec![
        ("a", ConfigValue::Text("x".to_string())),
        ("b", ConfigValue::Boolean(true)),
    ]);
    assert_eq!(seed.config.text("a").map(|s| s.as_str()), Some("x"));
    assert_eq!(seed.config.text("b"), None);
    assert_eq!(seed.config.text("c"), None);
    assert_eq!(seed.config.text_or("b", "fallback"), "fallback");
    assert_eq!(seed.config.text_or("a", "fallback"), "x");
}
