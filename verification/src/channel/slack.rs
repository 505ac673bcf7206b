//! The channel that talks to Slack: how its frames become events, how its
//! markup becomes plain text, and what goes out for a reply.

use crate::channel::{Channel, Seed};
use crate::message::{is_id_text, Event, EventView, Reply, ReplyView};
use crate::pattern::{
    capture_views, find_captures, regex_captures, regex_compiles, splice, spliced, spliced_from,
    Capture,
    CaptureView,
};
use crate::strmap::StrMap;
use crate::pattern::lemma_spliced_none;
use crate::text::{
    chars_of, is_prefix_of, lemma_replaced_without, replace_chars, replaced, starts_with, text_of,
};
use vstd::prelude::*;
use vstd::string::StringExecFns;

verus! {

/// A mention of a user by id.
pub const USERNAME_RE: &'static str = "<@(U[A-Z0-9]+)>";

/// A mention of a conversation, with its name behind a bar.
pub const CHANNEL_RE: &'static str = "<#[CD](?:[A-Z0-9]+)\\|(.*?)>";

/// A mail address, with its text behind a bar.
pub const MAILTO_RE: &'static str = "<mailto:\\S+?\\|([^>]+)>";

/// A link, with its text behind a bar.
pub const URL_RE: &'static str = "<[^|]+\\|([^>]+)>";

/// A message event as Slack sends it.
#[derive(Debug)]
pub struct RawEvent {
    pub ts: String,
    pub kind: String,
    pub subtype: Option<String>,
    pub channel: String,
    pub text: String,
    pub user: String,
    pub bot_id: Option<String>,
}

/// Who the bot is on Slack.
#[derive(Debug)]
pub struct SlackIdentity {
    pub id: String,
    pub name: String,
}

/// One entry of Slack's list of users.
#[derive(Debug)]
pub struct Member {
    pub id: String,
    pub name: String,
}

/// A message as Slack takes it.
#[derive(Debug)]
pub struct OutgoingMessage {
    pub kind: String,
    pub channel: String,
    pub text: String,
}

/// A frame from the socket, as far as the channel reads it. A socket that
/// was found closed counts as a closing frame.
#[derive(Debug)]
pub enum Frame {
    Text(String),
    Close,
    Other,
}

/// What to do with a frame.
#[derive(Debug)]
pub enum FrameStep {
    /// The medium has closed: tell the hub to hang up, and stop.
    Hangup,
    /// Nothing to do.
    Skip,
    /// Read this text as an event.
    Parse(String),
}

/// How a write to the socket ended.
#[derive(Debug)]
pub enum Written {
    /// The message went out.
    Sent,
    /// The write failed; the socket is still there.
    Failed,
    /// The socket has closed.
    Closed,
}

/// What to do after a write.
#[derive(Debug)]
pub enum WriteStep {
    /// Go on working.
    GoOn,
    /// The medium has closed: tell the hub to hang up, and stop.
    Hangup,
}

/// A connection to Slack: its name and token, who the bot is there, the
/// pattern that finds the bot's name, and the users that Slack listed.
pub struct Slack {
    pub name: String,
    pub api_token: String,
    pub our_name: Option<String>,
    pub our_id: Option<String>,
    pub targeted_re: String,
    pub users: Option<StrMap<String>>,
}

/// The address of a method of Slack's web interface.
pub fn url_for(method: &str) -> (url: String)
    ensures
        url@ == "https://slack.com/api/"@ + method@,
{
    String::from_str("https://slack.com/api/").concat(method)
}

/// The pattern that finds the bot's name at the front of a text: the name
/// in either case, an "@" before it or not, a colon behind it or not, then
/// white space.
pub open spec fn targeted_pattern(name: Seq<char>) -> Seq<char> {
    "^(?i)@?"@ + name + ":?\\s+"@
}

/// The text of a capture's group; empty where the group took no part.
pub open spec fn group_text(c: CaptureView) -> Seq<char> {
    match c.2 {
        Some(g) => g,
        None => Seq::empty(),
    }
}

/// For each capture, `prefix` and then the text of its group.
pub open spec fn prefixed_groups(cs: Seq<CaptureView>, prefix: Seq<char>) -> Seq<Seq<char>> {
    Seq::new(cs.len(), |i: int| prefix + group_text(cs[i]))
}

/// Every capture's group is the id of a listed user.
pub open spec fn mentions_known(users: Map<Seq<char>, Seq<char>>, cs: Seq<CaptureView>) -> bool {
    forall|i: int| 0 <= i < cs.len() ==> users.contains_key(group_text(#[trigger] cs[i]))
}

/// For each capture, "@" and then the name of the user whose id its group
/// holds.
pub open spec fn mention_names(users: Map<Seq<char>, Seq<char>>, cs: Seq<CaptureView>) -> Seq<
    Seq<char>,
> {
    Seq::new(cs.len(), |i: int| "@"@ + users[group_text(cs[i])])
}

/// The text with every match of the pattern replaced by `prefix` and the
/// text of the match's group.
pub open spec fn rewritten(text: Seq<char>, pattern: Seq<char>, prefix: Seq<char>) -> Seq<char> {
    let cs = regex_captures(pattern, text);
    spliced(text, cs, prefixed_groups(cs, prefix))
}

/// The text without angle brackets, and with Slack's three entities turned
/// back into the characters that they stand for.
pub open spec fn unescaped(text: Seq<char>) -> Seq<char> {
    let no_open = replaced(text, "<"@, ""@);
    let no_close = replaced(no_open, ">"@, ""@);
    let lt = replaced(no_close, "&lt;"@, "<"@);
    let gt = replaced(lt, "&gt;"@, ">"@);
    replaced(gt, "&amp;"@, "&"@)
}

/// All four markup patterns are accepted.
pub open spec fn markup_patterns_compile() -> bool {
    &&& regex_compiles(USERNAME_RE@)
    &&& regex_compiles(CHANNEL_RE@)
    &&& regex_compiles(MAILTO_RE@)
    &&& regex_compiles(URL_RE@)
}

/// The plain text of a text in Slack's markup: mentions of users become "@"
/// and the user's name, mentions of conversations "#" and their name, mail
/// addresses and links their text; what is left of angle brackets goes, and
/// the entities are turned back. There is none where a pattern is refused
/// or a mentioned user is not listed.
pub open spec fn decoded(users: Map<Seq<char>, Seq<char>>, text: Seq<char>) -> Option<Seq<char>> {
    let mentions = regex_captures(USERNAME_RE@, text);
    if !markup_patterns_compile() || !mentions_known(users, mentions) {
        None
    } else {
        let subbed_users = spliced(text, mentions, mention_names(users, mentions));
        let subbed_channels = rewritten(subbed_users, CHANNEL_RE@, "#"@);
        let subbed_mailto = rewritten(subbed_channels, MAILTO_RE@, ""@);
        let subbed_url = rewritten(subbed_mailto, URL_RE@, ""@);
        Some(unescaped(subbed_url))
    }
}

/// No pattern of the markup finds anything in the text.
pub open spec fn no_markup_found(text: Seq<char>) -> bool {
    &&& regex_captures(USERNAME_RE@, text).len() == 0
    &&& regex_captures(CHANNEL_RE@, text).len() == 0
    &&& regex_captures(MAILTO_RE@, text).len() == 0
    &&& regex_captures(URL_RE@, text).len() == 0
}

/// A text without markup is its own plain text: where the text holds no
/// angle bracket and no ampersand, and the patterns, all accepted, find
/// nothing in it, decoding hands it back as it is, whoever is listed.
pub proof fn lemma_plain_text_is_fixed(users: Map<Seq<char>, Seq<char>>, text: Seq<char>)
    requires
        !text.contains('<'),
        !text.contains('>'),
        !text.contains('&'),
    ensures
        markup_patterns_compile() && no_markup_found(text) ==> decoded(users, text) == Some(text),
{
    if markup_patterns_compile() && no_markup_found(text) {
        let none = Seq::<CaptureView>::empty();
        assert(regex_captures(USERNAME_RE@, text) =~= none);
        assert(regex_captures(CHANNEL_RE@, text) =~= none);
        assert(regex_captures(MAILTO_RE@, text) =~= none);
        assert(regex_captures(URL_RE@, text) =~= none);
        lemma_spliced_none(text, mention_names(users, none));
        lemma_spliced_none(text, prefixed_groups(none, "#"@));
        lemma_spliced_none(text, prefixed_groups(none, ""@));
        assert(rewritten(text, CHANNEL_RE@, "#"@) == text);
        assert(rewritten(text, MAILTO_RE@, ""@) == text);
        assert(rewritten(text, URL_RE@, ""@) == text);
        lemma_unescaped_plain(text);
    }
}

/// A text that holds no angle bracket and no ampersand is left as it is when
/// brackets are taken out and entities turned back.
pub proof fn lemma_unescaped_plain(text: Seq<char>)
    requires
        !text.contains('<'),
        !text.contains('>'),
        !text.contains('&'),
    ensures
        unescaped(text) == text,
{
    reveal_strlit("<");
    reveal_strlit(">");
    reveal_strlit("&lt;");
    reveal_strlit("&gt;");
    reveal_strlit("&amp;");
    lemma_replaced_without(text, "<"@, ""@);
    lemma_replaced_without(text, ">"@, ""@);
    lemma_replaced_without(text, "&lt;"@, "<"@);
    lemma_replaced_without(text, "&gt;"@, ">"@);
    lemma_replaced_without(text, "&amp;"@, "&"@);
}

/// The listed users by id: a later entry of the same id replaces an earlier
/// one.
pub open spec fn members_by_id(members: Seq<Member>) -> Map<Seq<char>, Seq<char>>
    decreases members.len(),
{
    if members.len() == 0 {
        Map::empty()
    } else {
        members_by_id(members.drop_last()).insert(members.last().id@, members.last().name@)
    }
}

/// The names of a map of users.
pub open spec fn names_of(m: StrMap<String>) -> Map<Seq<char>, Seq<char>> {
    m@.map_values(|s: String| s@)
}

/// The users that Slack listed, by id; none where Slack said that the
/// request failed.
pub fn load_users(ok: bool, members: &Vec<Member>) -> (users: Option<StrMap<String>>)
    ensures
        users.is_some() == ok,
        users matches Some(m) ==> m.wf() && names_of(m) == members_by_id(members@),
{
    if !ok {
        return None;
    }
    let mut hash: StrMap<String> = StrMap::new();
    let mut i: usize = 0;
    assert(names_of(hash) =~= members_by_id(members@.take(0)));
    while i < members.len()
        invariant
            i <= members.len(),
            hash.wf(),
            names_of(hash) == members_by_id(members@.take(i as int)),
        decreases members.len() - i,
    {
        let ghost before = names_of(hash);
        hash.insert(members[i].id.clone(), members[i].name.clone());
        proof {
            assert(members@.take(i + 1).drop_last() =~= members@.take(i as int));
            assert(names_of(hash) =~= before.insert(members@[i as int].id@, members@[i as int].name@));
        }
        i += 1;
    }
    assert(members@.take(members.len() as int) =~= members@);
    Some(hash)
}

/// What the worker does with a frame from the socket: a closing frame means
/// that the medium has closed, so the worker tells the hub to hang up and
/// stops; a text frame is handed on to be read as an event; every other
/// frame is passed over.
pub fn on_frame(frame: Frame) -> (step: FrameStep)
    ensures
        match frame {
            Frame::Close => step is Hangup,
            Frame::Text(s) => step == FrameStep::Parse(s),
            Frame::Other => step is Skip,
        },
{
    match frame {
        Frame::Close => FrameStep::Hangup,
        Frame::Text(s) => FrameStep::Parse(s),
        Frame::Other => FrameStep::Skip,
    }
}

/// What the worker does after a write to the socket: it goes on after a
/// write that went through and after one that failed, and tells the hub to
/// hang up and stops where the medium has closed.
pub fn on_written(outcome: Written) -> (step: WriteStep)
    ensures
        match outcome {
            Written::Closed => step is Hangup,
            _ => step is GoOn,
        },
{
    match outcome {
        Written::Closed => WriteStep::Hangup,
        _ => WriteStep::GoOn,
    }
}

/// For each capture, `prefix` and then the text of its group.
pub fn prefix_groups(captures: &Vec<Capture>, prefix: &str) -> (out: Vec<Vec<char>>)
    ensures
        out.len() == captures.len(),
        out@.map_values(|w: Vec<char>| w@) == prefixed_groups(capture_views(captures@), prefix@),
{
    let mut out: Vec<Vec<char>> = Vec::new();
    let mut i: usize = 0;
    while i < captures.len()
        invariant
            i <= captures.len(),
            out.len() == i,
            forall|j: int|
                0 <= j < i ==> (#[trigger] out[j])@ == prefix@ + group_text(captures@[j]@),
        decreases captures.len() - i,
    {
        let mut w = chars_of(prefix);
        match &captures[i].group {
            Some(g) => {
                let mut tail = chars_of(g.as_str());
                w.append(&mut tail);
            },
            None => {
                assert(w@ =~= prefix@ + Seq::<char>::empty());
            },
        }
        out.push(w);
        i += 1;
    }
    assert(out@.map_values(|w: Vec<char>| w@) =~= prefixed_groups(
        capture_views(captures@),
        prefix@,
    ));
    out
}

/// The text with every match of the pattern replaced by `prefix` and the
/// text of the match's group; nothing where the pattern is refused.
pub fn rewrite(text: &Vec<char>, pattern: &str, prefix: &str) -> (out: Option<Vec<char>>)
    ensures
        out.is_some() == regex_compiles(pattern@),
        out matches Some(t) ==> t@ == rewritten(text@, pattern@, prefix@),
{
    let s = text_of(text);
    match find_captures(pattern, s.as_str()) {
        Some(captures) => {
            let with = prefix_groups(&captures, prefix);
            Some(splice(text, &captures, &with))
        },
        None => None,
    }
}

/// Takes the angle brackets out and turns the entities back.
pub fn unescape(text: &Vec<char>) -> (out: Vec<char>)
    ensures
        out@ == unescaped(text@),
{
    let no_open = replace_chars(text, &chars_of("<"), &chars_of(""));
    let no_close = replace_chars(&no_open, &chars_of(">"), &chars_of(""));
    let lt = replace_chars(&no_close, &chars_of("&lt;"), &chars_of("<"));
    let gt = replace_chars(&lt, &chars_of("&gt;"), &chars_of(">"));
    replace_chars(&gt, &chars_of("&amp;"), &chars_of("&"))
}

/// The Slack channel of this name, with the token that the configuration
/// holds under `api_token`. It does not know yet who it is.
pub fn new(seed: Seed) -> (s: Slack)
    requires
        seed.config.wf(),
        seed.config.text_at("api_token"@).is_some(),
    ensures
        s.wf(),
        s.name@ == seed.name@,
        Some(s.api_token@) == seed.config.text_at("api_token"@),
        s.our_name.is_none(),
        s.our_id.is_none(),
        s.targeted_re@ == ""@,
        s.users.is_none(),
{
    let api_token = seed.config.text_or("api_token", "");
    Slack {
        name: seed.name.clone(),
        api_token,
        our_name: None,
        our_id: None,
        targeted_re: String::from_str(""),
        users: None,
    }
}

impl Channel for Slack {
    type Outgoing = OutgoingMessage;

    open spec fn delivers(&self, reply: ReplyView, out: OutgoingMessage) -> bool {
        &&& out.kind@ == "message"@
        &&& out.channel@ == reply.conversation_address
        &&& out.text@ == reply.text
    }

    fn send_reply(&self, reply: Reply) -> (out: OutgoingMessage) {
        OutgoingMessage {
            kind: String::from_str("message"),
            text: reply.text,
            channel: reply.conversation_address,
        }
    }
}

impl Slack {
    /// The list of users, where there is one, is a well-formed map.
    pub open spec fn wf(&self) -> bool {
        self.users matches Some(m) ==> m.wf()
    }

    /// The listed users' names by id; nobody where there is no list.
    pub open spec fn user_names(&self) -> Map<Seq<char>, Seq<char>> {
        match self.users {
            Some(m) => names_of(m),
            None => Map::empty(),
        }
    }

    /// Takes note of who the bot is and of the users that Slack listed.
    pub fn connected(&mut self, me: SlackIdentity, users: Option<StrMap<String>>)
        requires
            users matches Some(m) ==> m.wf(),
        ensures
            final(self).wf(),
            final(self).name == old(self).name,
            final(self).api_token == old(self).api_token,
            final(self).targeted_re@ == targeted_pattern(me.name@),
            final(self).our_name == Some(me.name),
            final(self).our_id == Some(me.id),
            final(self).users == users,
    {
        self.targeted_re = String::from_str("^(?i)@?").concat(me.name.as_str()).concat(":?\\s+");
        self.our_name = Some(me.name);
        self.our_id = Some(me.id);
        self.users = users;
    }

    /// The name of the user with this id, where the user is listed.
    pub fn username_for(&self, slackid: &str) -> (name: Option<String>)
        requires
            self.wf(),
        ensures
            match name {
                Some(n) => self.user_names().contains_key(slackid@) && self.user_names()[slackid@]
                    == n@,
                None => !self.user_names().contains_key(slackid@),
            },
    {
        match &self.users {
            Some(m) => match m.get(slackid) {
                Some(n) => Some(n.clone()),
                None => None,
            },
            None => None,
        }
    }

    /// For each capture, "@" and then the name of the user whose id its group
    /// holds; nothing where one of them is not listed.
    pub fn mentions(&self, captures: &Vec<Capture>) -> (out: Option<Vec<Vec<char>>>)
        requires
            self.wf(),
        ensures
            out.is_some() == mentions_known(self.user_names(), capture_views(captures@)),
            out matches Some(ws) ==> ws.len() == captures.len() && ws@.map_values(
                |w: Vec<char>| w@,
            ) == mention_names(self.user_names(), capture_views(captures@)),
    {
        let ghost cs = capture_views(captures@);
        let mut out: Vec<Vec<char>> = Vec::new();
        let mut i: usize = 0;
        while i < captures.len()
            invariant
                self.wf(),
                cs == capture_views(captures@),
                i <= captures.len(),
                out.len() == i,
                forall|j: int| 0 <= j < i ==> self.user_names().contains_key(group_text(#[trigger] cs[j])),
                forall|j: int|
                    0 <= j < i ==> (#[trigger] out[j])@ == "@"@ + self.user_names()[group_text(cs[j])],
            decreases captures.len() - i,
        {
            let id = match &captures[i].group {
                Some(g) => g.clone(),
                None => String::new(),
            };
            assert(id@ == group_text(cs[i as int]));
            match self.username_for(id.as_str()) {
                Some(name) => {
                    let mut w = chars_of("@");
                    let mut tail = chars_of(name.as_str());
                    w.append(&mut tail);
                    out.push(w);
                },
                None => {
                    return None;
                },
            }
            i += 1;
        }
        assert(out@.map_values(|w: Vec<char>| w@) =~= mention_names(self.user_names(), cs));
        Some(out)
    }

    /// The plain text of a text in Slack's markup.
    pub fn decode_slack_formatting(&self, text: String) -> (out: Option<String>)
        requires
            self.wf(),
        ensures
            match out {
                Some(t) => decoded(self.user_names(), text@) == Some(t@),
                None => decoded(self.user_names(), text@).is_none(),
            },
    {
        let chars = chars_of(text.as_str());
        let mentions = match find_captures(USERNAME_RE, text.as_str()) {
            Some(cs) => cs,
            None => {
                return None;
            },
        };
        let names = match self.mentions(&mentions) {
            Some(ws) => ws,
            None => {
                return None;
            },
        };
        let subbed_users = splice(&chars, &mentions, &names);
        let subbed_channels = match rewrite(&subbed_users, CHANNEL_RE, "#") {
            Some(t) => t,
            None => {
                return None;
            },
        };
        let subbed_mailto = match rewrite(&subbed_channels, MAILTO_RE, "") {
            Some(t) => t,
            None => {
                return None;
            },
        };
        let subbed_url = match rewrite(&subbed_mailto, URL_RE, "") {
            Some(t) => t,
            None => {
                return None;
            },
        };
        Some(text_of(&unescape(&subbed_url)))
    }

    /// The text without what the first match of the bot's name covers, and
    /// whether there was such a match.
    pub open spec fn untargeted(text: Seq<char>, found: Seq<CaptureView>) -> (Seq<char>, bool) {
        if found.len() > 0 {
            (text.take(found[0].0.len() as int) + text.skip(
                crate::pattern::capture_end(found[0]),
            ), true)
        } else {
            (text, false)
        }
    }

    /// The event that a raw event stands for, given its decoded text and what
    /// the search for the bot's name found in it. A text that begins with
    /// the bot's name loses it and counts as addressed to the bot, and so does
    /// everything said in a direct conversation; a conversation whose address
    /// begins with "C" is public.
    pub open spec fn event_for(
        &self,
        raw: RawEvent,
        text: Seq<char>,
        found: Seq<CaptureView>,
        id: Seq<char>,
    ) -> EventView {
        EventView {
            text: Self::untargeted(text, found).0,
            is_public: is_prefix_of("C"@, raw.channel@),
            was_targeted: Self::untargeted(text, found).1 || is_prefix_of("D"@, raw.channel@),
            from_address: raw.user@,
            conversation_address: raw.channel@,
            origin: self.name@,
            user: None,
            id,
        }
    }

    /// Builds the event from the decoded text and what the search for the
    /// bot's name found in it.
    pub fn event_from_parts(&self, raw: RawEvent, text: String, found: &Vec<Capture>) -> (e: Event)
        requires
            crate::pattern::well_placed(capture_views(found@), text@),
        ensures
            e.wf(),
            is_id_text(e@.id),
            e@ == self.event_for(raw, text@, capture_views(found@), e@.id),
    {
        let mut was_targeted = found.len() > 0;
        let mut text = text;
        if was_targeted {
            let ghost before = text@;
            let chars = chars_of(text.as_str());
            let mut with: Vec<Vec<char>> = Vec::new();
            with.push(Vec::new());
            let mut first: Vec<Capture> = Vec::new();
            let c = &found[0];
            first.push(
                Capture { before: c.before.clone(), whole: c.whole.clone(), group: None },
            );
            proof {
                let cs = capture_views(first@);
                let ws = with@.map_values(|w: Vec<char>| w@);
                assert(capture_views(found@)[0] == found@[0]@);
                assert(cs[0].0 == found@[0]@.0 && cs[0].1 == found@[0]@.1);
                assert(crate::pattern::capture_end(capture_views(found@)[0]) <= before.len());
                assert(cs.skip(1).len() == 0);
                assert(spliced(before, cs, ws) =~= before.take(cs[0].0.len() as int) + before.skip(
                    crate::pattern::capture_end(cs[0]),
                )) by {
                    assert(before.subrange(0, cs[0].0.len() as int) =~= before.take(
                        cs[0].0.len() as int,
                    ));
                    assert(ws[0] =~= Seq::<char>::empty());
                    assert(spliced_from(
                        before,
                        crate::pattern::capture_end(cs[0]),
                        cs.skip(1),
                        ws.skip(1),
                    ) == before.skip(crate::pattern::capture_end(cs[0])));
                }
            }
            text = text_of(&splice(&chars, &first, &with));
        }
        if starts_with(raw.channel.as_str(), "D") {
            was_targeted = true;
        }
        let is_public = starts_with(raw.channel.as_str(), "C");
        Event {
            text,
            is_public,
            was_targeted,
            from_address: raw.user,
            conversation_address: raw.channel,
            origin: self.name.clone(),
            user: None,
            id: Event::new_id(),
        }
    }

    /// The event that a raw event becomes: its text decoded, the bot's name
    /// taken from its front, a fresh id. There is none where the text cannot
    /// be decoded or the pattern for the bot's name is refused.
    pub fn event_from_raw(&self, raw: RawEvent) -> (r: Option<Event>)
        requires
            self.wf(),
        ensures
            match r {
                Some(e) => {
                    &&& e.wf()
                    &&& is_id_text(e@.id)
                    &&& regex_compiles(self.targeted_re@)
                    &&& decoded(self.user_names(), raw.text@) matches Some(text) && e@
                        == self.event_for(raw, text, regex_captures(self.targeted_re@, text), e@.id)
                },
                None => decoded(self.user_names(), raw.text@).is_none() || !regex_compiles(
                    self.targeted_re@,
                ),
            },
    {
        let text = match self.decode_slack_formatting(raw.text.clone()) {
            Some(t) => t,
            None => {
                return None;
            },
        };
        let found = match find_captures(self.targeted_re.as_str(), text.as_str()) {
            Some(cs) => cs,
            None => {
                return None;
            },
        };
        Some(self.event_from_parts(raw, text, &found))
    }
}

} // verus!
