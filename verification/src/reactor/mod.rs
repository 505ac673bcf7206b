//! Reactors: the rules by which an event is matched against handlers,
//! acknowledged and answered.

pub mod clox;
pub mod echo;

use crate::config::ComponentConfig;
use crate::message::{reply_for, Event, EventView, Message, MessageView};
use crate::text::{is_prefix_of, starts_with};
use vstd::prelude::*;

verus! {

/// The known kinds of reactor.
#[derive(Debug)]
pub enum Type {
    EchoReactor,
    CloxReactor,
}

/// The configuration of a reactor.
pub type ReactorConfig = ComponentConfig<Type>;

/// What a reactor is made from.
pub struct Seed {
    pub name: String,
    pub config: ReactorConfig,
}

/// A test on an event: what a handler asks before it takes one.
pub trait EventTest {
    /// Whether the test holds of the event.
    spec fn holds(&self, e: EventView) -> bool;

    /// Tests the event.
    fn test(&self, e: &Event) -> (b: bool)
        ensures
            b == self.holds(e@),
    ;
}

/// The tests that the reactors of this library use.
#[derive(Debug)]
pub enum Predicate {
    /// The event's text begins with this.
    TextStartsWith(String),
}

/// A rule of a reactor: when it applies, whether it will answer, and which
/// action it stands for.
pub struct Handler<T, P> {
    pub predicate: P,
    pub require_targeted: bool,
    pub will_respond: bool,
    pub key: T,
}

/// What every reactor has: its name and its handlers, in the order of their
/// registration.
pub struct Core<D, P> {
    pub name: String,
    pub handlers: Vec<Handler<D, P>>,
}

/// What a reactor does with a message from its mailbox.
#[derive(Debug)]
pub enum Step {
    /// Stop working.
    Stop,
    /// Send the acknowledgement to the hub at once. Then run the actions of
    /// the handlers at these positions, in order, and send what each hands
    /// back.
    Dispatch { ack: Message, matched: Vec<usize> },
    /// Go on.
    Skip,
}

/// The views of a run of messages.
pub open spec fn views(ms: Seq<Message>) -> Seq<MessageView> {
    ms.map_values(|m: Message| m@)
}

/// Every message of the run is a reply to the event in the name of `origin`.
pub open spec fn all_replies_to(out: Seq<MessageView>, event: EventView, origin: Seq<char>) -> bool {
    forall|i: int|
        0 <= i < out.len() ==> (#[trigger] out[i]) is Reply && out[i]->Reply_0 == reply_for(
            event,
            out[i]->Reply_0.text,
            origin,
        )
}

impl EventTest for Predicate {
    open spec fn holds(&self, e: EventView) -> bool {
        match *self {
            Predicate::TextStartsWith(p) => is_prefix_of(p@, e.text),
        }
    }

    fn test(&self, e: &Event) -> (b: bool) {
        match self {
            Predicate::TextStartsWith(p) => starts_with(e.text.as_str(), p.as_str()),
        }
    }
}

impl<T, P: EventTest> Handler<T, P> {
    /// Whether the handler's test holds of the event.
    pub fn matches(&self, e: &Event) -> (b: bool)
        ensures
            b == self.predicate.holds(e@),
    {
        self.predicate.test(e)
    }

    /// Whether the handler takes the event: it is not reserved for events
    /// addressed to the bot while this one is not, and its test holds.
    pub open spec fn applies(&self, e: EventView) -> bool {
        !(self.require_targeted && !e.was_targeted) && self.predicate.holds(e)
    }
}

/// The positions of the handlers that take the event, in ascending order.
pub open spec fn matched<T, P: EventTest>(handlers: Seq<Handler<T, P>>, e: EventView) -> Seq<int>
    decreases handlers.len(),
{
    if handlers.len() == 0 {
        Seq::empty()
    } else {
        let front = matched(handlers.drop_last(), e);
        if handlers.last().applies(e) {
            front.push(handlers.len() - 1)
        } else {
            front
        }
    }
}

/// Whether some handler that takes the event will answer it.
pub open spec fn some_will_respond<T, P: EventTest>(
    handlers: Seq<Handler<T, P>>,
    e: EventView,
) -> bool {
    exists|i: int| 0 <= i < handlers.len() && (#[trigger] handlers[i]).applies(e) && handlers[i].will_respond
}

impl<T, P: EventTest> Core<T, P> {
    /// The reactor's name.
    pub fn name(&self) -> (n: &str)
        ensures
            n@ == self.name@,
    {
        self.name.as_str()
    }

    /// The handlers, in the order of their registration.
    pub fn handlers(&self) -> (h: &Vec<Handler<T, P>>)
        ensures
            h == &self.handlers,
    {
        &self.handlers
    }

    /// Finds the handlers that take the event, and whether one of them will
    /// answer.
    pub fn evaluate(&self, event: &Event) -> (r: (Vec<usize>, bool))
        ensures
            r.0@.map_values(|i: usize| i as int) == matched(self.handlers@, event@),
            r.1 == some_will_respond(self.handlers@, event@),
            forall|j: int| 0 <= j < r.0.len() ==> (#[trigger] r.0[j]) < self.handlers.len(),
    {
        let mut matched_keys: Vec<usize> = Vec::new();
        let mut will_respond = false;
        let mut i: usize = 0;
        while i < self.handlers.len()
            invariant
                i <= self.handlers.len(),
                matched_keys@.map_values(|i: usize| i as int) == matched(
                    self.handlers@.take(i as int),
                    event@,
                ),
                will_respond == some_will_respond(self.handlers@.take(i as int), event@),
                forall|j: int|
                    0 <= j < matched_keys.len() ==> (#[trigger] matched_keys[j]) < self.handlers.len(),
            decreases self.handlers.len() - i,
        {
            let handler = &self.handlers[i];
            let ghost front = self.handlers@.take(i as int);
            let ghost next = self.handlers@.take(i + 1);
            let ghost keys_before = matched_keys@;
            let ghost respond_before = will_respond;
            assert(next.drop_last() =~= front);
            assert(next.last() == self.handlers@[i as int]);
            if !(handler.require_targeted && !event.was_targeted) && handler.matches(event) {
                matched_keys.push(i);
                assert(matched_keys@.map_values(|i: usize| i as int) =~= keys_before.map_values(
                    |i: usize| i as int,
                ).push(i as int));
                if handler.will_respond {
                    will_respond = true;
                }
            }
            assert(will_respond == some_will_respond(next, event@)) by {
                if respond_before {
                    let k = choose|k: int|
                        0 <= k < front.len() && (#[trigger] front[k]).applies(event@)
                            && front[k].will_respond;
                    assert(next[k].applies(event@) && next[k].will_respond);
                }
                if next.last().applies(event@) && next.last().will_respond {
                    assert(next[i as int].applies(event@) && next[i as int].will_respond);
                }
                if some_will_respond(next, event@) {
                    let k = choose|k: int|
                        0 <= k < next.len() && (#[trigger] next[k]).applies(event@)
                            && next[k].will_respond;
                    if k < i {
                        assert(front[k].applies(event@) && front[k].will_respond);
                    }
                }
            }
            i += 1;
        }
        assert(self.handlers@.take(self.handlers.len() as int) =~= self.handlers@);
        (matched_keys, will_respond)
    }
}

/// What the handlers' actions sent, one after the other: `out` falls into
/// one part for each key, in order, and each part is something that the
/// action for its key may send.
pub open spec fn sent_for<R: Reactor>(
    reactor: &R,
    keys: Seq<int>,
    event: EventView,
    out: Seq<MessageView>,
) -> bool
    decreases keys.len(),
{
    if keys.len() == 0 {
        out.len() == 0
    } else {
        exists|k: int|
            0 <= k <= out.len() && sent_for(reactor, keys.drop_last(), event, #[trigger] out.take(k))
                && 0 <= keys.last() < reactor.core_spec().handlers.len() && reactor.may_send(
                &reactor.core_spec().handlers[keys.last()].key,
                event,
                out.skip(k),
            )
    }
}

/// One more part, sent by the action for the last key, extends what was sent
/// for the keys before it.
pub proof fn lemma_sent_one_more<R: Reactor>(
    reactor: &R,
    keys: Seq<int>,
    event: EventView,
    out: Seq<MessageView>,
    k: int,
)
    requires
        keys.len() > 0,
        0 <= k <= out.len(),
        sent_for(reactor, keys.drop_last(), event, out.take(k)),
        0 <= keys.last() < reactor.core_spec().handlers.len(),
        reactor.may_send(&reactor.core_spec().handlers[keys.last()].key, event, out.skip(k)),
    ensures
        sent_for(reactor, keys, event, out),
{
}

/// A reactor: a core, and an action for each key of its handlers.
pub trait Reactor: Sized {
    /// The keys of the reactor's actions.
    type Dispatcher;

    /// The tests of the reactor's handlers.
    type Test: EventTest;

    /// The reactor's core, for contracts.
    spec fn core_spec(&self) -> &Core<Self::Dispatcher, Self::Test>;

    /// What the action for `key` may send in answer to `event`.
    spec fn may_send(&self, key: &Self::Dispatcher, event: EventView, out: Seq<MessageView>) -> bool;

    /// The reactor's core.
    fn get_core(&self) -> (c: &Core<Self::Dispatcher, Self::Test>)
        ensures
            c == self.core_spec(),
    ;

    /// Runs the action for `key` on the event and hands back what it sends:
    /// replies to the event in this reactor's name.
    fn dispatch(&self, key: &Self::Dispatcher, event: &Event) -> (out: Vec<Message>)
        requires
            event.wf(),
        ensures
            self.may_send(key, event@, views(out@)),
            all_replies_to(views(out@), event@, self.core_spec().name@),
    ;

    /// The acknowledgement of an event.
    fn ack(&self, id: &str, will_respond: bool) -> (m: Message)
        ensures
            m@ == MessageView::Ack(id@, will_respond),
    {
        Message::Ack(String::from_str(id), will_respond)
    }

    /// The reply to an event that says `text` in this reactor's name.
    fn reply_to(&self, event: &Event, text: &str) -> (m: Message)
        ensures
            m@ == MessageView::Reply(reply_for(event@, text@, self.core_spec().name@)),
    {
        event.reply(text, self.get_core().name())
    }
}

/// What follows from a reactor's core and actions: how it answers an event,
/// and what it does with a message from its mailbox.
pub trait Dispatching: Reactor {
    /// The acknowledgement of an event, which says whether a handler that
    /// takes the event will answer, and the positions of the handlers that
    /// take it, in the order in which they were registered. No action has
    /// run yet.
    fn acknowledge(&self, event: &Event) -> (r: (Message, Vec<usize>))
        ensures
            r.0@ == MessageView::Ack(
                event@.id,
                some_will_respond(self.core_spec().handlers@, event@),
            ),
            r.1@.map_values(|i: usize| i as int) == matched(self.core_spec().handlers@, event@),
            forall|j: int| 0 <= j < r.1.len() ==> (#[trigger] r.1[j]) < self.core_spec().handlers.len(),
    {
        let (matched_keys, will_respond) = self.get_core().evaluate(event);
        (self.ack(event.id.as_str(), will_respond), matched_keys)
    }

    /// Runs the action of the handler at position `at` on the event and
    /// hands back what it sends: replies to the event in this reactor's name.
    fn act(&self, at: usize, event: &Event) -> (out: Vec<Message>)
        requires
            at < self.core_spec().handlers.len(),
            event.wf(),
        ensures
            self.may_send(&self.core_spec().handlers[at as int].key, event@, views(out@)),
            all_replies_to(views(out@), event@, self.core_spec().name@),
    {
        self.dispatch(&self.get_core().handlers()[at].key, event)
    }

    /// What the reactor sends for one event: first the acknowledgement, which
    /// says whether a handler that takes the event will answer; then what the
    /// actions of the handlers that take it send, in the order in which the
    /// handlers were registered.
    fn dispatch_event(&self, event: &Event) -> (out: Vec<Message>)
        requires
            event.wf(),
        ensures
            out.len() >= 1,
            out[0]@ == MessageView::Ack(
                event@.id,
                some_will_respond(self.core_spec().handlers@, event@),
            ),
            sent_for(
                self,
                matched(self.core_spec().handlers@, event@),
                event@,
                views(out@).skip(1),
            ),
            all_replies_to(views(out@).skip(1), event@, self.core_spec().name@),
    {
        let (ack, matched_keys) = self.acknowledge(event);
        let mut out: Vec<Message> = Vec::new();
        out.push(ack);
        let ghost keys = matched(self.core_spec().handlers@, event@);
        let mut j: usize = 0;
        assert(views(out@).skip(1) =~= Seq::<MessageView>::empty());
        assert(keys.take(0) =~= Seq::<int>::empty());
        while j < matched_keys.len()
            invariant
                event.wf(),
                j <= matched_keys.len(),
                keys == matched(self.core_spec().handlers@, event@),
                matched_keys@.map_values(|i: usize| i as int) == keys,
                forall|q: int|
                    0 <= q < matched_keys.len() ==> (#[trigger] matched_keys[q])
                        < self.core_spec().handlers.len(),
                out.len() >= 1,
                out[0]@ == MessageView::Ack(
                    event@.id,
                    some_will_respond(self.core_spec().handlers@, event@),
                ),
                sent_for(self, keys.take(j as int), event@, views(out@).skip(1)),
                all_replies_to(views(out@).skip(1), event@, self.core_spec().name@),
            decreases matched_keys.len() - j,
        {
            let at = matched_keys[j];
            let ghost before = views(out@).skip(1);
            let mut part = self.act(at, event);
            let ghost sent = views(part@);
            out.append(&mut part);
            proof {
                let after = views(out@).skip(1);
                assert(after =~= before + sent);
                assert(after.take(before.len() as int) =~= before);
                assert(after.skip(before.len() as int) =~= sent);
                assert(keys.take(j + 1).drop_last() =~= keys.take(j as int));
                assert(keys.take(j + 1).last() == at as int) by {
                    assert(matched_keys@.map_values(|i: usize| i as int)[j as int] == at as int);
                }
                let k = before.len() as int;
                let next = keys.take(j + 1);
                assert(sent_for(self, next.drop_last(), event@, after.take(k)));
                assert(0 <= next.last() < self.core_spec().handlers.len());
                assert(self.may_send(
                    &self.core_spec().handlers[next.last()].key,
                    event@,
                    after.skip(k),
                ));
                assert(keys.len() == matched_keys.len()) by {
                    assert(matched_keys@.map_values(|i: usize| i as int).len() == keys.len());
                }
                assert(next.len() == j + 1);
                lemma_sent_one_more(self, next, event@, after, k);
            }
            j += 1;
        }
        assert(keys.take(matched_keys.len() as int) =~= keys);
        out
    }

    /// What the reactor does with a message from its mailbox: a hangup ends
    /// its work; an event is acknowledged before any action runs, and the
    /// actions to run are named; anything else is passed over.
    fn on_message(&self, msg: &Message) -> (step: Step)
        ensures
            match *msg {
                Message::Hangup => step is Stop,
                Message::Event(e) => step is Dispatch && {
                    let ack = step->Dispatch_ack;
                    let positions = step->Dispatch_matched;
                    &&& ack@ == MessageView::Ack(
                        e@.id,
                        some_will_respond(self.core_spec().handlers@, e@),
                    )
                    &&& positions@.map_values(|i: usize| i as int) == matched(
                        self.core_spec().handlers@,
                        e@,
                    )
                    &&& forall|j: int|
                        0 <= j < positions.len() ==> (#[trigger] positions[j])
                            < self.core_spec().handlers.len()
                },
                _ => step is Skip,
            },
    {
        match msg {
            Message::Hangup => Step::Stop,
            Message::Event(event) => {
                let (ack, matched) = self.acknowledge(event);
                Step::Dispatch { ack, matched }
            },
            _ => Step::Skip,
        }
    }
}

impl<R: Reactor> Dispatching for R {

}

} // verus!
