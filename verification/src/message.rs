//! The envelope that travels on every mailbox, and the events and replies
//! that it carries.

use crate::user::{User, UserView};
use vstd::prelude::*;

verus! {

/// An inbound message from a channel.
#[derive(Debug)]
pub struct Event {
    pub text: String,
    pub is_public: bool,
    pub was_targeted: bool,
    pub from_address: String,
    pub conversation_address: String,
    pub origin: String,
    pub user: Option<User>,
    pub id: String,
}

/// What an `Event` stands for.
pub ghost struct EventView {
    pub text: Seq<char>,
    pub is_public: bool,
    pub was_targeted: bool,
    pub from_address: Seq<char>,
    pub conversation_address: Seq<char>,
    pub origin: Seq<char>,
    pub user: Option<UserView>,
    pub id: Seq<char>,
}

/// An outbound message.
#[derive(Debug)]
pub struct Reply {
    pub text: String,
    pub from_address: String,
    pub conversation_address: String,
    pub origin: String,
    pub destination: String,
}

/// What a `Reply` stands for.
pub ghost struct ReplyView {
    pub text: Seq<char>,
    pub from_address: Seq<char>,
    pub conversation_address: Seq<char>,
    pub origin: Seq<char>,
    pub destination: Seq<char>,
}

/// What travels on a mailbox.
#[derive(Debug)]
pub enum Message {
    Event(Event),
    Reply(Reply),
    Hangup,
    Ack(String, bool),
}

/// What a `Message` stands for.
pub ghost enum MessageView {
    Event(EventView),
    Reply(ReplyView),
    Hangup,
    Ack(Seq<char>, bool),
}

/// The view of an optional user.
pub open spec fn opt_user_view(u: Option<User>) -> Option<UserView> {
    match u {
        Some(x) => Some(x@),
        None => None,
    }
}

/// The reply to an event with the given view: addressed as the event was,
/// bound for the channel the event came from.
pub open spec fn reply_for(e: EventView, text: Seq<char>, origin: Seq<char>) -> ReplyView {
    ReplyView {
        text,
        from_address: e.from_address,
        conversation_address: e.conversation_address,
        origin,
        destination: e.origin,
    }
}

impl View for Event {
    type V = EventView;

    open spec fn view(&self) -> EventView {
        EventView {
            text: self.text@,
            is_public: self.is_public,
            was_targeted: self.was_targeted,
            from_address: self.from_address@,
            conversation_address: self.conversation_address@,
            origin: self.origin@,
            user: opt_user_view(self.user),
            id: self.id@,
        }
    }
}

impl View for Reply {
    type V = ReplyView;

    open spec fn view(&self) -> ReplyView {
        ReplyView {
            text: self.text@,
            from_address: self.from_address@,
            conversation_address: self.conversation_address@,
            origin: self.origin@,
            destination: self.destination@,
        }
    }
}

impl View for Message {
    type V = MessageView;

    open spec fn view(&self) -> MessageView {
        match *self {
            Message::Event(e) => MessageView::Event(e@),
            Message::Reply(r) => MessageView::Reply(r@),
            Message::Hangup => MessageView::Hangup,
            Message::Ack(id, will_respond) => MessageView::Ack(id@, will_respond),
        }
    }
}

/// The shape of an event's identifier: 36 characters in five groups with a
/// hyphen between them, the third group beginning with the version, 4.
pub open spec fn is_id_text(id: Seq<char>) -> bool {
    &&& id.len() == 36
    &&& id[8] == '-'
    &&& id[13] == '-'
    &&& id[18] == '-'
    &&& id[23] == '-'
    &&& id[14] == '4'
}

/// Draws a version-4 identifier with `uuid::Uuid::new_v4` and renders it with
/// the identifier's `Display`, which writes the hyphenated form: 36
/// characters, two for each byte, with hyphens at the places 8, 13, 18 and
/// 23, so that the version stands at place 14. Nothing is claimed of which
/// identifier comes out. The call fails only where the system has no source
/// of random bytes.
#[verifier::external_body]
fn random_id_text() -> (id: String)
    ensures
        is_id_text(id@),
{
    format!("{}", uuid::Uuid::new_v4())
}

/// Copies an optional user.
pub fn copy_opt_user(u: &Option<User>) -> (r: Option<User>)
    requires
        u.is_some() ==> u.unwrap().wf(),
    ensures
        opt_user_view(r) == opt_user_view(*u),
        r.is_some() ==> r.unwrap().wf(),
{
    match u {
        Some(x) => Some(x.clone()),
        None => None,
    }
}

impl Event {
    /// The resolved user, if there is one, is well-formed.
    pub open spec fn wf(&self) -> bool {
        self.user.is_some() ==> self.user.unwrap().wf()
    }

    /// A fresh identifier for an event: a random 128-bit identifier in its
    /// hyphenated form.
    pub fn new_id() -> (id: String)
        ensures
            is_id_text(id@),
    {
        random_id_text()
    }

    /// The reply to this event that says `text` in the name of `origin`. It
    /// is addressed as the event was and bound for the channel that the event
    /// came from.
    pub fn reply(&self, text: &str, origin: &str) -> (m: Message)
        ensures
            m@ == MessageView::Reply(reply_for(self@, text@, origin@)),
    {
        Message::Reply(
            Reply {
                text: String::from_str(text),
                from_address: self.from_address.clone(),
                conversation_address: self.conversation_address.clone(),
                origin: String::from_str(origin),
                destination: self.origin.clone(),
            },
        )
    }

    /// A copy of this event.
    pub fn dupe(&self) -> (e: Event)
        requires
            self.wf(),
        ensures
            e.wf(),
            e@ == self@,
    {
        Event {
            text: self.text.clone(),
            is_public: self.is_public,
            was_targeted: self.was_targeted,
            from_address: self.from_address.clone(),
            conversation_address: self.conversation_address.clone(),
            origin: self.origin.clone(),
            user: copy_opt_user(&self.user),
            id: self.id.clone(),
        }
    }
}

impl Clone for Reply {
    fn clone(&self) -> (r: Reply)
        ensures
            r == *self,
    {
        Reply {
            text: self.text.clone(),
            from_address: self.from_address.clone(),
            conversation_address: self.conversation_address.clone(),
            origin: self.origin.clone(),
            destination: self.destination.clone(),
        }
    }
}

} // verus!
