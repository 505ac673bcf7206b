//! The hub's bookkeeping: which channels and reactors exist, which events
//! still wait for acknowledgements, and what to do with each message that
//! arrives.

use crate::message::{reply_for, Event, EventView, Message, MessageView, Reply, ReplyView};
use crate::strmap::StrMap;
use crate::user::UserView;
use crate::user_directory::{resolved, Directory};
use vstd::prelude::*;
use vstd::string::StringExecFns;

verus! {

/// The acknowledgements gathered so far for one event.
#[derive(Debug)]
pub struct PendingReply {
    pub count: u32,
    pub will_respond: bool,
    pub event: Event,
}

/// What a `PendingReply` stands for.
pub ghost struct PendingView {
    pub count: nat,
    pub will_respond: bool,
    pub event: EventView,
}

impl View for PendingReply {
    type V = PendingView;

    open spec fn view(&self) -> PendingView {
        PendingView {
            count: self.count as nat,
            will_respond: self.will_respond,
            event: self.event@,
        }
    }
}

/// What the caller of the hub has to do after a message was handled.
#[derive(Debug)]
pub enum HubAction {
    /// Nothing.
    Idle,
    /// Hand the reply to the channel that was registered as number `slot`.
    Forward { slot: usize, reply: Reply },
    /// Put the message on the mailbox that the reactors write to, so that it
    /// is routed like any reply of theirs.
    Requeue(Message),
    /// Hand a copy of the event to every reactor.
    Broadcast(Event),
    /// Tell every reactor, then every channel, to hang up; wait for them and
    /// end.
    Shutdown,
}

/// What a `HubAction` stands for.
pub ghost enum HubActionView {
    Idle,
    Forward { slot: usize, reply: ReplyView },
    Requeue(MessageView),
    Broadcast(EventView),
    Shutdown,
}

impl View for HubAction {
    type V = HubActionView;

    open spec fn view(&self) -> HubActionView {
        match *self {
            HubAction::Idle => HubActionView::Idle,
            HubAction::Forward { slot, reply } => HubActionView::Forward { slot, reply: reply@ },
            HubAction::Requeue(m) => HubActionView::Requeue(m@),
            HubAction::Broadcast(e) => HubActionView::Broadcast(e@),
            HubAction::Shutdown => HubActionView::Shutdown,
        }
    }
}

/// Why a component could not be registered.
#[derive(Debug)]
pub enum AssemblyError {
    /// A component of this full name is registered already.
    DuplicateName(String),
}

/// The router between channels and reactors.
#[derive(Debug)]
pub struct Hub {
    channels: StrMap<usize>,
    reactors: StrMap<usize>,
    reactor_count: u32,
    env: Directory,
    pending_replies: StrMap<PendingReply>,
}

/// The acknowledgements that an event waits with: all known reactors are
/// still to answer.
pub open spec fn fresh_pending(event: EventView) -> PendingView {
    PendingView { count: 0, will_respond: false, event }
}

/// The record after one more acknowledgement.
pub open spec fn acked(p: PendingView, will_respond: bool) -> PendingView {
    PendingView { count: p.count + 1, will_respond: p.will_respond || will_respond, event: p.event }
}

/// What the hub says when an event was addressed to it and no reactor will
/// answer.
pub open spec fn fallback_reply(event: EventView) -> ReplyView {
    reply_for(event, "Does not compute."@, "hub"@)
}

/// The pending records after an acknowledgement for `id`: the record leaves
/// when it has as many acknowledgements as there are reactors, and counts one
/// more otherwise.
pub open spec fn pending_after_ack(
    pending: Map<Seq<char>, PendingView>,
    reactor_count: nat,
    id: Seq<char>,
    will_respond: bool,
) -> Map<Seq<char>, PendingView> {
    let p = acked(pending[id], will_respond);
    if p.count == reactor_count {
        pending.remove(id)
    } else {
        pending.insert(id, p)
    }
}

/// The reply that the hub owes after an acknowledgement for `id`: the
/// fallback, when this acknowledgement was the last one due, the event was
/// addressed to the hub and no reactor said that it would answer.
pub open spec fn fallback_after_ack(
    pending: Map<Seq<char>, PendingView>,
    reactor_count: nat,
    id: Seq<char>,
    will_respond: bool,
) -> Option<ReplyView> {
    let p = acked(pending[id], will_respond);
    if p.count == reactor_count && p.event.was_targeted && !p.will_respond {
        Some(fallback_reply(p.event))
    } else {
        None
    }
}

/// The full name of a channel.
pub open spec fn channel_name(raw: Seq<char>) -> Seq<char> {
    "channel/"@ + raw
}

/// The full name of a reactor.
pub open spec fn reactor_name(raw: Seq<char>) -> Seq<char> {
    "reactor/"@ + raw
}

/// A hub with no channel, no reactor, no pending event and an empty
/// directory.
pub fn new() -> (hub: Hub)
    ensures
        hub.wf(),
        hub.reactor_count() == 0,
        hub.channels() == Map::<Seq<char>, usize>::empty(),
        hub.reactors() == Map::<Seq<char>, usize>::empty(),
        hub.pending() == Map::<Seq<char>, PendingView>::empty(),
        hub.directory().wf(),
        hub.directory().users() == Map::<Seq<char>, UserView>::empty(),
        hub.directory().book() == Map::<Seq<char>, Map<Seq<char>, Seq<char>>>::empty(),
{
    let hub = Hub {
        channels: StrMap::new(),
        reactors: StrMap::new(),
        reactor_count: 0,
        env: Directory::new(),
        pending_replies: StrMap::new(),
    };
    assert(hub.pending() =~= Map::<Seq<char>, PendingView>::empty());
    hub
}

impl Hub {
    /// The registered channels, each with its number in the order of
    /// registration.
    pub closed spec fn channels(&self) -> Map<Seq<char>, usize> {
        self.channels@
    }

    /// The registered reactors, each with its number in the order of
    /// registration.
    pub closed spec fn reactors(&self) -> Map<Seq<char>, usize> {
        self.reactors@
    }

    /// The number of registered reactors.
    pub closed spec fn reactor_count(&self) -> nat {
        self.reactor_count as nat
    }

    /// The events that wait for acknowledgements, by event id.
    pub closed spec fn pending(&self) -> Map<Seq<char>, PendingView> {
        self.pending_replies@.map_values(|p: PendingReply| p@)
    }

    /// The directory in which senders are looked up.
    pub closed spec fn directory(&self) -> Directory {
        self.env
    }

    /// The maps are well-formed; channels and reactors are numbered without
    /// gaps, each number given once; every pending event is filed under its
    /// own id.
    pub closed spec fn wf(&self) -> bool {
        &&& self.channels.wf()
        &&& self.reactors.wf()
        &&& self.pending_replies.wf()
        &&& self.env.wf()
        &&& self.reactor_count as nat == self.reactors@.dom().len()
        &&& numbered(self.channels@)
        &&& numbered(self.reactors@)
        &&& forall|id: Seq<char>| #[trigger]
            self.pending_replies@.contains_key(id) ==> {
                &&& self.pending_replies@[id].event.wf()
                &&& self.pending_replies@[id].event.id@ == id
            }
    }
}

impl Hub {
    /// Whether a message from a reactor can be handled: a reply names a
    /// registered channel, an acknowledgement names a pending event whose
    /// count can still grow.
    pub open spec fn admits_from_reactor(&self, m: MessageView) -> bool {
        match m {
            MessageView::Reply(r) => self.channels().contains_key(r.destination),
            MessageView::Ack(id, _) => self.pending().contains_key(id) && self.pending()[id].count
                < u32::MAX,
            _ => true,
        }
    }

    /// Whether a message from a channel can be handled: it is no
    /// acknowledgement, and the sender of an event leads nowhere in the
    /// directory or to a known user.
    pub open spec fn admits_from_channel(&self, m: Message) -> bool {
        match m {
            Message::Event(e) => e.wf() && self.directory().can_resolve(
                e@.origin,
                e@.from_address,
            ),
            Message::Ack(_, _) => false,
            _ => true,
        }
    }

    /// Replaces the directory in which senders are looked up.
    pub fn set_directory(&mut self, directory: Directory)
        requires
            old(self).wf(),
            directory.wf(),
        ensures
            final(self).wf(),
            final(self).directory() == directory,
            final(self).channels() == old(self).channels(),
            final(self).reactors() == old(self).reactors(),
            final(self).reactor_count() == old(self).reactor_count(),
            final(self).pending() == old(self).pending(),
    {
        self.env = directory;
    }

    /// The number of registered reactors.
    pub fn count_reactors(&self) -> (n: u32)
        ensures
            n == self.reactor_count(),
    {
        self.reactor_count
    }

    /// The number of registered channels.
    pub fn count_channels(&self) -> (n: usize)
        requires
            self.wf(),
        ensures
            n == self.channels().dom().len(),
    {
        self.channels.len()
    }

    /// The number of events that wait for acknowledgements.
    pub fn count_pending(&self) -> (n: usize)
        requires
            self.wf(),
        ensures
            n == self.pending().dom().len(),
    {
        assert(self.pending().dom() =~= self.pending_replies@.dom());
        self.pending_replies.len()
    }

    /// Whether an event of this id waits for acknowledgements.
    pub fn is_pending(&self, id: &str) -> (b: bool)
        requires
            self.wf(),
        ensures
            b == self.pending().contains_key(id@),
    {
        self.pending_replies.contains_key(id)
    }

    /// The number under which a channel of this full name is registered.
    pub fn channel_slot(&self, name: &str) -> (slot: Option<usize>)
        requires
            self.wf(),
        ensures
            match slot {
                Some(i) => self.channels().contains_key(name@) && self.channels()[name@] == i,
                None => !self.channels().contains_key(name@),
            },
    {
        match self.channels.get(name) {
            Some(i) => Some(*i),
            None => None,
        }
    }

    /// Registers the channel `raw_name` under its full name and the next free
    /// number, and hands back the full name. A full name that is registered
    /// already is refused, and the hub stays as it was.
    pub fn assemble_channel(&mut self, raw_name: &str) -> (r: Result<String, AssemblyError>)
        requires
            old(self).wf(),
        ensures
            final(self).wf(),
            final(self).reactors() == old(self).reactors(),
            final(self).reactor_count() == old(self).reactor_count(),
            final(self).pending() == old(self).pending(),
            final(self).directory() == old(self).directory(),
            match r {
                Ok(name) => {
                    &&& !old(self).channels().contains_key(channel_name(raw_name@))
                    &&& name@ == channel_name(raw_name@)
                    &&& old(self).channels().dom().len() <= usize::MAX
                    &&& final(self).channels() == old(self).channels().insert(
                        name@,
                        old(self).channels().dom().len() as usize,
                    )
                },
                Err(AssemblyError::DuplicateName(name)) => {
                    &&& old(self).channels().contains_key(channel_name(raw_name@))
                    &&& name@ == channel_name(raw_name@)
                    &&& final(self).channels() == old(self).channels()
                },
            },
    {
        let name = String::from_str("channel/").concat(raw_name);
        if self.channels.contains_key(name.as_str()) {
            return Err(AssemblyError::DuplicateName(name));
        }
        let slot = self.channels.len();
        proof {
            lemma_numbered_insert(self.channels@, name@);
        }
        self.channels.insert(name.clone(), slot);
        Ok(name)
    }

    /// Registers the reactor `raw_name` under its full name and the next free
    /// number, counts it, and hands back the full name. A full name that is
    /// registered already is refused, and the hub stays as it was.
    pub fn assemble_reactor(&mut self, raw_name: &str) -> (r: Result<String, AssemblyError>)
        requires
            old(self).wf(),
            old(self).reactor_count() < u32::MAX,
        ensures
            final(self).wf(),
            final(self).channels() == old(self).channels(),
            final(self).pending() == old(self).pending(),
            final(self).directory() == old(self).directory(),
            match r {
                Ok(name) => {
                    &&& !old(self).reactors().contains_key(reactor_name(raw_name@))
                    &&& name@ == reactor_name(raw_name@)
                    &&& final(self).reactor_count() == old(self).reactor_count() + 1
                    &&& final(self).reactors() == old(self).reactors().insert(
                        name@,
                        old(self).reactor_count() as usize,
                    )
                },
                Err(AssemblyError::DuplicateName(name)) => {
                    &&& old(self).reactors().contains_key(reactor_name(raw_name@))
                    &&& name@ == reactor_name(raw_name@)
                    &&& final(self).reactor_count() == old(self).reactor_count()
                    &&& final(self).reactors() == old(self).reactors()
                },
            },
    {
        let name = String::from_str("reactor/").concat(raw_name);
        if self.reactors.contains_key(name.as_str()) {
            return Err(AssemblyError::DuplicateName(name));
        }
        let slot = self.reactors.len();
        proof {
            lemma_numbered_insert(self.reactors@, name@);
        }
        self.reactors.insert(name.clone(), slot);
        self.reactor_count = self.reactor_count + 1;
        Ok(name)
    }

    /// The event with its sender looked up in the directory; nothing else of
    /// it changes.
    pub fn transmogrify_event(&self, orig: &Event) -> (event: Event)
        requires
            self.wf(),
            orig.wf(),
            self.directory().can_resolve(orig@.origin, orig@.from_address),
        ensures
            event.wf(),
            event@ == (EventView {
                user: resolved(
                    self.directory().users(),
                    self.directory().book(),
                    orig@.origin,
                    orig@.from_address,
                ),
                ..orig@
            }),
    {
        let user = self.env.resolve_user(orig);
        let mut event = orig.dupe();
        event.user = user;
        event
    }

    /// Counts one acknowledgement for the event `id`. When every reactor has
    /// acknowledged, the record leaves the pending events, and the fallback
    /// reply comes back if the event was addressed to the hub and no reactor
    /// will answer.
    pub fn handle_ack(&mut self, id: &str, this_response: bool) -> (fallback: Option<Message>)
        requires
            old(self).wf(),
            old(self).pending().contains_key(id@),
            old(self).pending()[id@].count < u32::MAX,
        ensures
            final(self).wf(),
            final(self).channels() == old(self).channels(),
            final(self).reactors() == old(self).reactors(),
            final(self).reactor_count() == old(self).reactor_count(),
            final(self).directory() == old(self).directory(),
            final(self).pending() == pending_after_ack(
                old(self).pending(),
                old(self).reactor_count(),
                id@,
                this_response,
            ),
            match fallback_after_ack(
                old(self).pending(),
                old(self).reactor_count(),
                id@,
                this_response,
            ) {
                Some(r) => fallback.is_some() && fallback.unwrap()@ == MessageView::Reply(r),
                None => fallback.is_none(),
            },
    {
        let ghost before = self.pending();
        let r = self.pending_replies.remove(id).unwrap();
        let count: u32 = r.count + 1;
        let will_respond = this_response || r.will_respond;
        assert(self.pending() =~= before.remove(id@));
        if count == self.reactor_count {
            if r.event.was_targeted && !will_respond {
                Some(r.event.reply("Does not compute.", "hub"))
            } else {
                None
            }
        } else {
            let next = PendingReply { count, will_respond, event: r.event };
            self.pending_replies.insert(String::from_str(id), next);
            assert(self.pending() =~= before.insert(id@, acked(before[id@], this_response)));
            None
        }
    }

    /// Tests whether a message from a reactor can be handled.
    pub fn accepts_from_reactor(&self, msg: &Message) -> (ok: bool)
        requires
            self.wf(),
        ensures
            ok == self.admits_from_reactor(msg@),
    {
        match msg {
            Message::Reply(r) => self.channels.contains_key(r.destination.as_str()),
            Message::Ack(id, _) => {
                match self.pending_replies.get(id.as_str()) {
                    Some(p) => p.count < u32::MAX,
                    None => false,
                }
            },
            _ => true,
        }
    }

    /// Tests whether a message from a channel can be handled.
    pub fn accepts_from_channel(&self, msg: &Message) -> (ok: bool)
        requires
            self.wf(),
            msg is Event ==> msg->Event_0.wf(),
        ensures
            ok == self.admits_from_channel(*msg),
    {
        match msg {
            Message::Event(e) => self.env.resolves(e),
            Message::Ack(_, _) => false,
            _ => true,
        }
    }

    /// Handles one message from a reactor. A reply goes to the channel that
    /// it names; an acknowledgement is counted, and the fallback reply that it
    /// may set free is queued like a reactor's; a hangup shuts down; anything
    /// else is passed over.
    pub fn on_reactor_message(&mut self, msg: Message) -> (action: HubAction)
        requires
            old(self).wf(),
            old(self).admits_from_reactor(msg@),
        ensures
            final(self).wf(),
            final(self).channels() == old(self).channels(),
            final(self).reactors() == old(self).reactors(),
            final(self).reactor_count() == old(self).reactor_count(),
            final(self).directory() == old(self).directory(),
            final(self).pending() == match msg@ {
                MessageView::Ack(id, will_respond) => pending_after_ack(
                    old(self).pending(),
                    old(self).reactor_count(),
                    id,
                    will_respond,
                ),
                _ => old(self).pending(),
            },
            action@ == match msg@ {
                MessageView::Hangup => HubActionView::Shutdown,
                MessageView::Reply(r) => HubActionView::Forward {
                    slot: old(self).channels()[r.destination],
                    reply: r,
                },
                MessageView::Ack(id, will_respond) => match fallback_after_ack(
                    old(self).pending(),
                    old(self).reactor_count(),
                    id,
                    will_respond,
                ) {
                    Some(r) => HubActionView::Requeue(MessageView::Reply(r)),
                    None => HubActionView::Idle,
                },
                MessageView::Event(_) => HubActionView::Idle,
            },
    {
        match msg {
            Message::Hangup => HubAction::Shutdown,
            Message::Reply(reply) => {
                let slot = self.channel_slot(reply.destination.as_str()).unwrap();
                HubAction::Forward { slot, reply }
            },
            Message::Ack(id, this_resp) => {
                match self.handle_ack(id.as_str(), this_resp) {
                    Some(m) => HubAction::Requeue(m),
                    None => HubAction::Idle,
                }
            },
            Message::Event(_) => HubAction::Idle,
        }
    }

    /// Handles one message from a channel. An event has its sender looked
    /// up, starts to wait for acknowledgements under its id, and goes out to
    /// every reactor; a hangup shuts down; a reply is passed over.
    pub fn on_channel_message(&mut self, msg: Message) -> (action: HubAction)
        requires
            old(self).wf(),
            old(self).admits_from_channel(msg),
        ensures
            final(self).wf(),
            final(self).channels() == old(self).channels(),
            final(self).reactors() == old(self).reactors(),
            final(self).reactor_count() == old(self).reactor_count(),
            final(self).directory() == old(self).directory(),
            match msg@ {
                MessageView::Event(e) => {
                    let enriched = EventView {
                        user: resolved(
                            old(self).directory().users(),
                            old(self).directory().book(),
                            e.origin,
                            e.from_address,
                        ),
                        ..e
                    };
                    &&& action@ == HubActionView::Broadcast(enriched)
                    &&& final(self).pending() == old(self).pending().insert(
                        e.id,
                        fresh_pending(enriched),
                    )
                },
                MessageView::Hangup => {
                    &&& action@ == HubActionView::Shutdown
                    &&& final(self).pending() == old(self).pending()
                },
                _ => {
                    &&& action@ == HubActionView::Idle
                    &&& final(self).pending() == old(self).pending()
                },
            },
    {
        match msg {
            Message::Hangup => HubAction::Shutdown,
            Message::Event(channel_event) => {
                let event = self.transmogrify_event(&channel_event);
                let ghost before = self.pending();
                let waiting = PendingReply { count: 0, will_respond: false, event: event.dupe() };
                self.pending_replies.insert(event.id.clone(), waiting);
                assert(self.pending() =~= before.insert(event@.id, fresh_pending(event@)));
                HubAction::Broadcast(event)
            },
            _ => HubAction::Idle,
        }
    }
}

/// Giving a new name the next free number keeps the numbering.
pub proof fn lemma_numbered_insert(names: Map<Seq<char>, usize>, name: Seq<char>)
    requires
        numbered(names),
        !names.contains_key(name),
        names.dom().len() <= usize::MAX,
    ensures
        numbered(names.insert(name, names.dom().len() as usize)),
        names.insert(name, names.dom().len() as usize).dom().len() == names.dom().len() + 1,
{
    let n = names.dom().len() as usize;
    let next = names.insert(name, n);
    assert(next.dom() =~= names.dom().insert(name));
    assert forall|k: Seq<char>| #[trigger] next.contains_key(k) implies next[k] < next.dom().len() by {
        if k != name {
            assert(names.contains_key(k));
        }
    }
    assert forall|j: Seq<char>, k: Seq<char>|
        next.contains_key(j) && next.contains_key(k) && next[j] == next[k] implies j == k by {
        if j != name {
            assert(names.contains_key(j));
        }
        if k != name {
            assert(names.contains_key(k));
        }
    }
}


/// Some acknowledgement of the run says that its reactor will answer.
pub open spec fn any_will_respond(acks: Seq<bool>) -> bool {
    exists|i: int| 0 <= i < acks.len() && acks[i]
}

/// What reaches the hub's bookkeeping of pending events: an
/// acknowledgement from a reactor, or an event that is admitted.
pub ghost enum HubInput {
    Ack(Seq<char>, bool),
    Admit(EventView),
}

/// The pending records after one input.
pub open spec fn pending_after_input(
    pending: Map<Seq<char>, PendingView>,
    reactor_count: nat,
    input: HubInput,
) -> Map<Seq<char>, PendingView> {
    match input {
        HubInput::Ack(id, will_respond) => pending_after_ack(pending, reactor_count, id, will_respond),
        HubInput::Admit(e) => pending.insert(e.id, fresh_pending(e)),
    }
}

/// The pending records after a run of inputs, taken in order.
pub open spec fn pending_after_inputs(
    pending: Map<Seq<char>, PendingView>,
    reactor_count: nat,
    inputs: Seq<HubInput>,
) -> Map<Seq<char>, PendingView>
    decreases inputs.len(),
{
    if inputs.len() == 0 {
        pending
    } else {
        pending_after_input(
            pending_after_inputs(pending, reactor_count, inputs.drop_last()),
            reactor_count,
            inputs.last(),
        )
    }
}

/// The acknowledgements for `id` among the inputs, in order.
pub open spec fn acks_for(inputs: Seq<HubInput>, id: Seq<char>) -> Seq<bool>
    decreases inputs.len(),
{
    if inputs.len() == 0 {
        Seq::empty()
    } else {
        let front = acks_for(inputs.drop_last(), id);
        match inputs.last() {
            HubInput::Ack(i, will_respond) if i == id => front.push(will_respond),
            _ => front,
        }
    }
}

/// The fallback replies that the acknowledgements for `id` among the inputs
/// set free, in order.
pub open spec fn fallbacks_for(
    pending: Map<Seq<char>, PendingView>,
    reactor_count: nat,
    inputs: Seq<HubInput>,
    id: Seq<char>,
) -> Seq<ReplyView>
    decreases inputs.len(),
{
    if inputs.len() == 0 {
        Seq::empty()
    } else {
        let front = fallbacks_for(pending, reactor_count, inputs.drop_last(), id);
        match inputs.last() {
            HubInput::Ack(i, will_respond) if i == id => match fallback_after_ack(
                pending_after_inputs(pending, reactor_count, inputs.drop_last()),
                reactor_count,
                id,
                will_respond,
            ) {
                Some(r) => front.push(r),
                None => front,
            },
            _ => front,
        }
    }
}

/// No event of this id is admitted among the inputs.
pub open spec fn never_admitted(inputs: Seq<HubInput>, id: Seq<char>) -> bool {
    forall|i: int|
        0 <= i < inputs.len() && (#[trigger] inputs[i]) is Admit ==> inputs[i]->Admit_0.id != id
}

/// One more acknowledgement promises an answer exactly where it does or one
/// before it did.
pub proof fn lemma_any_will_respond_push(acks: Seq<bool>)
    requires
        acks.len() > 0,
    ensures
        any_will_respond(acks) == (any_will_respond(acks.drop_last()) || acks.last()),
{
    let front = acks.drop_last();
    if any_will_respond(front) {
        let i = choose|i: int| 0 <= i < front.len() && front[i];
        assert(acks[i]);
    }
    if acks.last() {
        assert(acks[acks.len() - 1]);
    }
    if any_will_respond(acks) {
        let i = choose|i: int| 0 <= i < acks.len() && acks[i];
        if i < front.len() {
            assert(front[i]);
        }
    }
}

/// An event has just started to wait, with at least one reactor registered;
/// then acknowledgements for it, for other events and new events of other
/// ids arrive in any order, no more acknowledgements for it than there are
/// reactors. While fewer of its
/// acknowledgements than reactors have come, its record stays, counts them
/// and has set no fallback free. With the last one its record leaves, and
/// exactly then the fallback is set free, once, if the event was addressed to
/// the hub and none of its acknowledgements promised an answer; otherwise
/// none is.
pub proof fn lemma_quorum(
    pending: Map<Seq<char>, PendingView>,
    reactor_count: nat,
    event: EventView,
    inputs: Seq<HubInput>,
)
    requires
        pending.contains_key(event.id),
        pending[event.id] == fresh_pending(event),
        reactor_count >= 1,
        acks_for(inputs, event.id).len() <= reactor_count,
        never_admitted(inputs, event.id),
    ensures
        ({
            let acks = acks_for(inputs, event.id);
            let after = pending_after_inputs(pending, reactor_count, inputs);
            let said = fallbacks_for(pending, reactor_count, inputs, event.id);
            &&& acks.len() < reactor_count ==> {
                &&& after.contains_key(event.id)
                &&& after[event.id] == (PendingView {
                    count: acks.len(),
                    will_respond: any_will_respond(acks),
                    event,
                })
                &&& said == Seq::<ReplyView>::empty()
            }
            &&& acks.len() == reactor_count ==> {
                &&& !after.contains_key(event.id)
                &&& said == if event.was_targeted && !any_will_respond(acks) {
                    seq![fallback_reply(event)]
                } else {
                    Seq::<ReplyView>::empty()
                }
            }
        }),
    decreases inputs.len(),
{
    let id = event.id;
    if inputs.len() == 0 {
        assert(!any_will_respond(acks_for(inputs, id)));
    } else {
        let front = inputs.drop_last();
        assert(never_admitted(front, id)) by {
            assert forall|i: int| 0 <= i < front.len() && (#[trigger] front[i]) is Admit implies front[i]->Admit_0.id
                != id by {
                assert(inputs[i] == front[i]);
            }
        }
        lemma_quorum(pending, reactor_count, event, front);
        let acks = acks_for(inputs, id);
        let mid = pending_after_inputs(pending, reactor_count, front);
        let after = pending_after_inputs(pending, reactor_count, inputs);
        let said = fallbacks_for(pending, reactor_count, inputs, id);
        assert(after == pending_after_input(mid, reactor_count, inputs.last()));
        match inputs.last() {
            HubInput::Ack(i, will_respond) => {
                if i == id {
                    assert(acks.drop_last() =~= acks_for(front, id));
                    assert(acks.last() == will_respond);
                    lemma_any_will_respond_push(acks);
                    assert(acked(mid[id], will_respond).count == acks.len());
                    if acks.len() == reactor_count {
                        if event.was_targeted && !any_will_respond(acks) {
                            assert(said =~= seq![fallback_reply(event)]);
                        } else {
                            assert(said =~= Seq::<ReplyView>::empty());
                        }
                    } else {
                        assert(said =~= Seq::<ReplyView>::empty());
                    }
                }
            },
            HubInput::Admit(e) => {
                assert(inputs[inputs.len() - 1] is Admit);
                assert(e.id != id);
            },
        }
    }
}

/// An event that was not addressed to the hub sets no fallback free, whatever
/// the reactors acknowledge and whatever else arrives meanwhile.
pub proof fn lemma_untargeted_is_silent(
    pending: Map<Seq<char>, PendingView>,
    reactor_count: nat,
    event: EventView,
    inputs: Seq<HubInput>,
)
    requires
        pending.contains_key(event.id),
        pending[event.id] == fresh_pending(event),
        reactor_count >= 1,
        acks_for(inputs, event.id).len() <= reactor_count,
        never_admitted(inputs, event.id),
        !event.was_targeted,
    ensures
        fallbacks_for(pending, reactor_count, inputs, event.id) == Seq::<ReplyView>::empty(),
{
    lemma_quorum(pending, reactor_count, event, inputs);
}

/// The record of an event is there while fewer acknowledgements for it than
/// there are reactors have come, and gone when exactly that many have;
/// once gone, a further acknowledgement for it is not admitted.
pub proof fn lemma_record_leaves_at_quorum(hub: Hub, event: EventView, inputs: Seq<HubInput>)
    requires
        hub.wf(),
        hub.pending().contains_key(event.id),
        hub.pending()[event.id] == fresh_pending(event),
        hub.reactor_count() >= 1,
        acks_for(inputs, event.id).len() <= hub.reactor_count(),
        never_admitted(inputs, event.id),
    ensures
        pending_after_inputs(hub.pending(), hub.reactor_count(), inputs).contains_key(event.id) == (
        acks_for(inputs, event.id).len() < hub.reactor_count()),
        forall|later: Hub, will_respond: bool|
            later.pending() == pending_after_inputs(hub.pending(), hub.reactor_count(), inputs)
                && acks_for(inputs, event.id).len() == hub.reactor_count()
                ==> !#[trigger] later.admits_from_reactor(MessageView::Ack(event.id, will_respond)),
{
    lemma_quorum(hub.pending(), hub.reactor_count(), event, inputs);
}

/// A reply to an event is bound for the channel that the event came from,
/// and addressed as the event was.
pub proof fn lemma_reply_goes_home(event: EventView, text: Seq<char>, origin: Seq<char>)
    ensures
        reply_for(event, text, origin).destination == event.origin,
        reply_for(event, text, origin).conversation_address == event.conversation_address,
        reply_for(event, text, origin).from_address == event.from_address,
        fallback_reply(event).destination == event.origin,
{
}

/// The number under which a reply is forwarded belongs to the channel that
/// the reply names and to no other.
pub proof fn lemma_route_is_exact(hub: Hub, reply: ReplyView, other: Seq<char>)
    requires
        hub.wf(),
        hub.channels().contains_key(reply.destination),
        hub.channels().contains_key(other),
        hub.channels()[other] == hub.channels()[reply.destination],
    ensures
        other == reply.destination,
{
}

/// The names are numbered from zero without gaps: every number is below the
/// number of names, and no two names share one.
pub open spec fn numbered(names: Map<Seq<char>, usize>) -> bool {
    &&& names.dom().finite()
    &&& forall|k: Seq<char>| #[trigger] names.contains_key(k) ==> names[k] < names.dom().len()
    &&& forall|j: Seq<char>, k: Seq<char>|
        names.contains_key(j) && names.contains_key(k) && names[j] == names[k] ==> j == k
}

} // verus!
