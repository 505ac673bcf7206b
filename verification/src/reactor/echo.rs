//! The reactor that says back what it heard.

use crate::message::{reply_for, Event, EventView, Message, MessageView};
use crate::reactor::{
    matched, sent_for, some_will_respond, Core, EventTest, Handler, Predicate, Reactor, Seed,
};
use crate::text::is_prefix_of;
use vstd::prelude::*;
use vstd::string::StringExecFns;

verus! {

/// The reactor that answers "echo ..." with what it heard.
pub struct Echo {
    core: Core<Dispatch, Predicate>,
}

/// The actions of the echo.
pub enum Dispatch {
    HandleEcho,
}

/// By what name the echo speaks of the sender: the user's name, or
/// "someone" where the sender is not known.
pub open spec fn heard_from(e: EventView) -> Seq<char> {
    match e.user {
        Some(u) => u.username,
        None => "someone"@,
    }
}

/// What the echo says to an event.
pub open spec fn echo_text(e: EventView) -> Seq<char> {
    "I heard "@ + heard_from(e) + " say "@ + e.text
}

/// The echo reactor of this name: one handler, for events that are addressed
/// to the bot and begin with "echo", which always answers.
pub fn new(seed: Seed) -> (r: Echo)
    ensures
        r.wf(),
        r.core_spec().name@ == seed.name@,
{
    let mut handlers: Vec<Handler<Dispatch, Predicate>> = Vec::new();
    handlers.push(
        Handler {
            require_targeted: true,
            predicate: Predicate::TextStartsWith(String::from_str("echo")),
            will_respond: true,
            key: Dispatch::HandleEcho,
        },
    );
    Echo { core: Core { name: seed.name.clone(), handlers } }
}

impl Reactor for Echo {
    type Dispatcher = Dispatch;

    type Test = Predicate;

    closed spec fn core_spec(&self) -> &Core<Dispatch, Predicate> {
        &self.core
    }

    open spec fn may_send(&self, key: &Dispatch, event: EventView, out: Seq<MessageView>) -> bool {
        out == seq![MessageView::Reply(reply_for(event, echo_text(event), self.core_spec().name@))]
    }

    fn get_core(&self) -> &Core<Dispatch, Predicate> {
        &self.core
    }

    fn dispatch(&self, key: &Dispatch, event: &Event) -> (out: Vec<Message>) {
        match key {
            Dispatch::HandleEcho => {
                let mut out: Vec<Message> = Vec::new();
                out.push(self.handle_echo(event));
                assert(crate::reactor::views(out@) =~= seq![out[0]@]);
                out
            },
        }
    }
}

/// Whether the echo takes the event: it is addressed to the bot and begins
/// with "echo".
pub open spec fn echo_takes(e: EventView) -> bool {
    e.was_targeted && is_prefix_of("echo"@, e.text)
}

/// What an echo sends for an event, behind the acknowledgement: its one
/// answer where it takes the event, nothing where it does not; and it
/// acknowledges with a promise to answer exactly where it takes the event.
pub proof fn lemma_echo_answers(r: &Echo, e: EventView, out: Seq<MessageView>)
    requires
        r.wf(),
        sent_for(r, matched(r.core_spec().handlers@, e), e, out),
    ensures
        some_will_respond(r.core_spec().handlers@, e) == echo_takes(e),
        out == if echo_takes(e) {
            seq![MessageView::Reply(reply_for(e, echo_text(e), r.core_spec().name@))]
        } else {
            Seq::<MessageView>::empty()
        },
{
    let hs = r.core_spec().handlers@;
    assert(hs.drop_last() =~= Seq::<Handler<Dispatch, Predicate>>::empty());
    assert(hs.last() == hs[0]);
    assert(hs[0].applies(e) == echo_takes(e));
    let keys = matched(hs, e);
    assert(matched(hs.drop_last(), e) =~= Seq::<int>::empty());
    if echo_takes(e) {
        assert(keys =~= seq![0int]);
        assert(keys.drop_last() =~= Seq::<int>::empty());
        let k = choose|k: int|
            0 <= k <= out.len() && sent_for(r, keys.drop_last(), e, #[trigger] out.take(k)) && 0
                <= keys.last() < r.core_spec().handlers.len() && r.may_send(
                &r.core_spec().handlers[keys.last()].key,
                e,
                out.skip(k),
            );
        assert(out.take(k).len() == 0);
        assert(out.skip(k) =~= out);
        assert(hs[0].applies(e) && hs[0].will_respond);
    } else {
        assert(keys =~= Seq::<int>::empty());
        assert(out =~= Seq::<MessageView>::empty());
    }
}

impl Echo {
    /// The one handler is for events that are addressed to the bot and begin
    /// with "echo", and it always answers.
    pub closed spec fn wf(&self) -> bool {
        &&& self.core.handlers.len() == 1
        &&& self.core.handlers[0].require_targeted
        &&& self.core.handlers[0].will_respond
        &&& self.core.handlers[0].predicate->TextStartsWith_0@ == "echo"@
    }

    /// The echo's answer to an event: "I heard", who, "say", and the event's
    /// text.
    pub fn handle_echo(&self, event: &Event) -> (m: Message)
        ensures
            m@ == MessageView::Reply(reply_for(event@, echo_text(event@), self.core_spec().name@)),
    {
        let who = match &event.user {
            Some(u) => u.username.as_str(),
            None => "someone",
        };
        let text = String::from_str("I heard ").concat(who).concat(" say ").concat(
            event.text.as_str(),
        );
        self.reply_to(event, text.as_str())
    }
}

} // verus!
