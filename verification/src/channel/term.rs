//! The channel that talks on a terminal.

use crate::channel::{Channel, Seed};
use crate::message::{is_id_text, Event, EventView, Message, MessageView, Reply, ReplyView};
use crate::text::{chars_of, replace_chars, replaced, text_of, trim, trimmed};
use vstd::prelude::*;
use vstd::string::StringExecFns;

verus! {

/// A terminal: its name, the address that it speaks for, and the address at
/// which it holds its conversations.
pub struct Term {
    pub name: String,
    pub from_addr: String,
    pub default_public_reply_addr: String,
}

/// What the terminal does with one line of input.
#[derive(Debug)]
pub enum TermStep {
    /// The input has ended: tell the hub to hang up, and stop.
    Hangup,
    /// Nothing was said.
    Skip,
    /// Send this event to the hub.
    Send(Message),
}

/// What the terminal shows for a reply: a header with the channel's name and
/// the conversation, then the text, each of its lines indented by two
/// spaces.
pub open spec fn term_rendering(name: Seq<char>, reply: ReplyView) -> Seq<char> {
    ">> "@ + name + "!"@ + reply.conversation_address + " |\n  "@ + replaced(
        reply.text,
        "\n"@,
        "\n  "@,
    )
}

/// The terminal channel of this name. It speaks for the address written
/// under `from_address` ("sysop" where none is) and holds its conversations
/// at the address written under `public_reply_addr` ("#public" where none
/// is).
pub fn new(seed: Seed) -> (t: Term)
    requires
        seed.config.wf(),
    ensures
        t.name@ == seed.name@,
        t.from_address() == match seed.config.text_at("from_address"@) {
            Some(s) => s,
            None => "sysop"@,
        },
        t.reply_address() == match seed.config.text_at("public_reply_addr"@) {
            Some(s) => s,
            None => "#public"@,
        },
{
    let from = seed.config.text_or("from_address", "sysop");
    let reply_addr = seed.config.text_or("public_reply_addr", "#public");
    Term { name: seed.name.clone(), from_addr: from, default_public_reply_addr: reply_addr }
}

impl Channel for Term {
    type Outgoing = String;

    open spec fn delivers(&self, reply: ReplyView, out: String) -> bool {
        out@ == term_rendering(self.name@, reply)
    }

    fn send_reply(&self, reply: Reply) -> (out: String) {
        let text = chars_of(reply.text.as_str());
        let indented = text_of(&replace_chars(&text, &chars_of("\n"), &chars_of("\n  ")));
        String::from_str(">> ").concat(self.name.as_str()).concat("!").concat(
            reply.conversation_address.as_str(),
        ).concat(" |\n  ").concat(indented.as_str())
    }
}

impl Term {
    /// The address that this terminal speaks for.
    pub open spec fn from_address(&self) -> Seq<char> {
        self.from_addr@
    }

    /// The address at which this terminal holds its conversations.
    pub open spec fn reply_address(&self) -> Seq<char> {
        self.default_public_reply_addr@
    }

    /// The event that a line of text becomes: private, addressed to the bot,
    /// from this terminal's address, with no user yet.
    pub open spec fn event_for(&self, text: Seq<char>, id: Seq<char>) -> EventView {
        EventView {
            text,
            is_public: false,
            was_targeted: true,
            from_address: self.from_address(),
            conversation_address: self.reply_address(),
            origin: self.name@,
            user: None,
            id,
        }
    }

    /// What to do with one line read from the terminal. A line of no
    /// characters at all is the end of the input; a line of nothing but white
    /// space says nothing; any other becomes an event with the trimmed line as
    /// its text and a fresh id.
    pub fn on_line(&self, line: &str) -> (step: TermStep)
        ensures
            line@.len() == 0 ==> step is Hangup,
            line@.len() > 0 && trimmed(line@).len() == 0 ==> step is Skip,
            line@.len() > 0 && trimmed(line@).len() > 0 ==> step is Send && step->Send_0 is Event && {
                let e = step->Send_0->Event_0;
                e.wf() && is_id_text(e@.id) && e@ == self.event_for(trimmed(line@), e@.id)
            },
    {
        if line.unicode_len() == 0 {
            return TermStep::Hangup;
        }
        let text = trim(line);
        if text.as_str().unicode_len() == 0 {
            return TermStep::Skip;
        }
        TermStep::Send(
            Message::Event(
                Event {
                    text,
                    is_public: false,
                    was_targeted: true,
                    from_address: self.from_addr.clone(),
                    conversation_address: self.default_public_reply_addr.clone(),
                    origin: self.name.clone(),
                    user: None,
                    id: Event::new_id(),
                },
            ),
        )
    }
}

} // verus!
