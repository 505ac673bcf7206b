//! Channels: what a front-end does with the messages that the hub sends it.

pub mod slack;
pub mod term;

use crate::config::ComponentConfig;
use crate::message::{Message, MessageView, Reply, ReplyView};
use vstd::prelude::*;

verus! {

/// The known kinds of channel.
#[derive(Debug)]
pub enum Type {
    SlackChannel,
    TermChannel,
}

/// The configuration of a channel.
pub type ChannelConfig = ComponentConfig<Type>;

/// How a look into the mailbox ended.
#[derive(Debug, PartialEq, Eq)]
pub enum ReplyResponse {
    /// The hub said to hang up.
    Hangup,
    /// The mailbox was empty and nothing was delivered.
    Empty,
    /// The mailbox is empty now and something was delivered.
    Sent,
}

/// What a channel is made from.
pub struct Seed {
    pub name: String,
    pub config: ChannelConfig,
}

/// What to do after one look into the mailbox.
pub enum CatchStep<O> {
    /// Put this on the medium, then look again.
    Deliver(O),
    /// Look again.
    Again,
    /// Stop looking, with this result.
    Done(ReplyResponse),
}

/// A front-end: it says what goes out on its medium for a reply.
pub trait Channel {
    /// What goes out on the medium.
    type Outgoing;

    /// Whether `out` is what goes out on the medium for the reply.
    spec fn delivers(&self, reply: ReplyView, out: Self::Outgoing) -> bool;

    /// What goes out on the medium for the reply.
    fn send_reply(&self, reply: Reply) -> (out: Self::Outgoing)
        ensures
            self.delivers(reply@, out),
    ;
}

/// What follows from a channel's way of delivering: how it empties its
/// mailbox.
pub trait Catching: Channel {
    /// One look into the mailbox. `polled` is the message that was there, if
    /// there was one; `did_send` says whether a reply was delivered since the
    /// looking began, and is kept up to date. A hangup ends the looking at
    /// once; a reply is delivered; an empty mailbox ends the looking, with
    /// the word whether anything was delivered; anything else is passed over.
    fn catch_step(&self, did_send: &mut bool, polled: Option<Message>) -> (step: CatchStep<
        Self::Outgoing,
    >)
        ensures
            match polled {
                Some(Message::Hangup) => step == CatchStep::<Self::Outgoing>::Done(
                    ReplyResponse::Hangup,
                ) && *final(did_send) == *old(did_send),
                Some(Message::Reply(r)) => step is Deliver && self.delivers(r@, step->Deliver_0)
                    && *final(did_send),
                Some(_) => step is Again && *final(did_send) == *old(did_send),
                None => step == CatchStep::<Self::Outgoing>::Done(
                    if *old(did_send) {
                        ReplyResponse::Sent
                    } else {
                        ReplyResponse::Empty
                    },
                ) && *final(did_send) == *old(did_send),
            },
    {
        match polled {
            Some(Message::Hangup) => CatchStep::Done(ReplyResponse::Hangup),
            Some(Message::Reply(reply)) => {
                let out = self.send_reply(reply);
                *did_send = true;
                CatchStep::Deliver(out)
            },
            None => {
                if *did_send {
                    CatchStep::Done(ReplyResponse::Sent)
                } else {
                    CatchStep::Done(ReplyResponse::Empty)
                }
            },
            Some(_) => CatchStep::Again,
        }
    }

    /// Empties a mailbox of which the messages are known: delivers the
    /// replies up to the first hangup, in order, and says how the looking
    /// ended. A hangup ends it at once with what was delivered before it;
    /// without one the end says whether anything was delivered.
    fn catch_replies(&self, inbox: Vec<Message>) -> (r: (ReplyResponse, Vec<Self::Outgoing>))
        ensures
            r.0 == caught(crate::reactor::views(inbox@)),
            r.1.len() == replies_before_hangup(crate::reactor::views(inbox@)).len(),
            forall|i: int|
                0 <= i < r.1.len() ==> self.delivers(
                    replies_before_hangup(crate::reactor::views(inbox@))[i],
                    #[trigger] r.1[i],
                ),
    {
        let ghost all = crate::reactor::views(inbox@);
        let mut rest = inbox;
        let mut out: Vec<Self::Outgoing> = Vec::new();
        let mut did_send = false;
        let n = rest.len();
        let mut i: usize = 0;
        assert(all.take(0) =~= Seq::<MessageView>::empty());
        while i < n
            invariant
                i <= n,
                n == all.len(),
                all == crate::reactor::views(inbox@),
                rest.len() == n,
                forall|j: int| i <= j < n ==> (#[trigger] rest[j])@ == all[j],
                !has_hangup(all.take(i as int)),
                did_send == (replies_before_hangup(all.take(i as int)).len() > 0),
                out.len() == replies_before_hangup(all.take(i as int)).len(),
                forall|j: int|
                    0 <= j < out.len() ==> self.delivers(
                        replies_before_hangup(all.take(i as int))[j],
                        #[trigger] out[j],
                    ),
            decreases n - i,
        {
            let mut taken = Message::Hangup;
            let ghost seen = all.take(i as int);
            let ghost next = all.take(i + 1);
            let ghost before = rest@;
            rest.set_and_swap(i, &mut taken);
            proof {
                assert(taken@ == all[i as int]);
                assert(next.drop_last() =~= seen);
                assert(next.last() == all[i as int]);
                assert forall|j: int| i + 1 <= j < n implies (#[trigger] rest[j])@ == all[j] by {
                    assert(rest[j] == before[j]);
                }
                if !(all[i as int] is Hangup) {
                    assert(!has_hangup(next)) by {
                        if has_hangup(next) {
                            let k = choose|k: int| 0 <= k < next.len() && (#[trigger] next[k]) is Hangup;
                            if k < i {
                                assert(seen[k] is Hangup);
                            }
                        }
                    }
                }
            }
            match self.catch_step(&mut did_send, Some(taken)) {
                CatchStep::Deliver(o) => {
                    out.push(o);
                },
                CatchStep::Again => {},
                CatchStep::Done(resp) => {
                    proof {
                        lemma_hangup_ends(all, i as int);
                    }
                    return (resp, out);
                },
            }
            i += 1;
        }
        assert(all.take(n as int) =~= all);
        match self.catch_step(&mut did_send, None) {
            CatchStep::Done(resp) => (resp, out),
            _ => (ReplyResponse::Empty, out),
        }
    }
}

impl<C: Channel> Catching for C {

}

/// Whether a hangup is among the messages.
pub open spec fn has_hangup(seen: Seq<MessageView>) -> bool {
    exists|i: int| 0 <= i < seen.len() && (#[trigger] seen[i]) is Hangup
}

/// The replies among the messages that stand before the first hangup, in
/// order.
pub open spec fn replies_before_hangup(seen: Seq<MessageView>) -> Seq<ReplyView>
    decreases seen.len(),
{
    if seen.len() == 0 {
        Seq::empty()
    } else if has_hangup(seen.drop_last()) {
        replies_before_hangup(seen.drop_last())
    } else {
        match seen.last() {
            MessageView::Reply(r) => replies_before_hangup(seen.drop_last()).push(r),
            _ => replies_before_hangup(seen.drop_last()),
        }
    }
}

/// How the looking ends on a mailbox that holds these messages.
pub open spec fn caught(seen: Seq<MessageView>) -> ReplyResponse {
    if has_hangup(seen) {
        ReplyResponse::Hangup
    } else if replies_before_hangup(seen).len() > 0 {
        ReplyResponse::Sent
    } else {
        ReplyResponse::Empty
    }
}

/// Where the first hangup stands at position `i`, the replies before the
/// first hangup are those among the first `i` messages.
pub proof fn lemma_hangup_ends(all: Seq<MessageView>, i: int)
    requires
        0 <= i < all.len(),
        all[i] is Hangup,
        !has_hangup(all.take(i)),
    ensures
        has_hangup(all),
        replies_before_hangup(all) == replies_before_hangup(all.take(i)),
    decreases all.len() - i,
{
    assert(all[i] is Hangup);
    if i + 1 < all.len() {
        let front = all.drop_last();
        assert(front.take(i) =~= all.take(i));
        lemma_hangup_ends(front, i);
    } else {
        assert(all.drop_last() =~= all.take(i));
    }
}

} // verus!
