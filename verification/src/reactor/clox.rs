//! The reactor that tells the time: in Internet Time, and in a handful of
//! places around the world.

use crate::message::{reply_for, Event, EventView, Message, MessageView};
use crate::reactor::{
    matched, sent_for, some_will_respond, Core, EventTest, Handler, Predicate, Reactor, Seed,
};
use crate::text::is_prefix_of;
use std::fmt::Write;
use crate::text::{decimal, digits};
use vstd::prelude::*;
use vstd::string::StringExecFns;

verus! {

/// The reactor that answers "clox" with the time, as its clock was last
/// set.
pub struct Clox {
    core: Core<Dispatch, Predicate>,
    now: i64,
    beats: u32,
}

/// The actions of the clock.
pub enum Dispatch {
    HandleClox,
}

/// A moment as a place sees it: the date, the time of day to the minute, and
/// the number of the day.
#[derive(Debug)]
pub struct Reading {
    pub date: String,
    pub time: String,
    pub day: i32,
}

/// What a `Reading` stands for: date, time of day, number of the day.
pub type ReadingView = (Seq<char>, Seq<char>, int);

/// The place whose day the other places' days are told against.
pub const USER_ZONE: &'static str = "America/New_York";

/// How many seconds east of Greenwich Internet Time is kept.
pub const INTERNET_TIME_EAST: i32 = 3600;

/// How the clock writes a date.
pub const DATE_FORMAT: &'static str = "%F";

/// How the clock writes a time of day.
pub const TIME_FORMAT: &'static str = "%H:%M";

/// What `chrono_tz` makes of a moment, given in seconds since 1970, in the
/// time zone of a name: the date and the time of day as `chrono` formats them
/// by the two format strings, and the date's number of days since the year
/// 1; or nothing, where it knows no such zone, the moment or the zone's
/// local time at that moment is out of `chrono`'s range, or a format string
/// is refused.
pub uninterp spec fn zone_reading(
    now: int,
    zone: Seq<char>,
    date_format: Seq<char>,
    time_format: Seq<char>,
) -> Option<ReadingView>;

/// What `chrono` makes of a moment, given in seconds since 1970, at a fixed
/// number of seconds east of Greenwich: the date as it formats it by the
/// format string; or nothing, where the offset or the moment is out of its
/// range or the format string is refused.
pub uninterp spec fn offset_date(now: int, east: int, date_format: Seq<char>) -> Option<Seq<char>>;

/// The view of an optional reading.
pub open spec fn reading_view(r: Option<Reading>) -> Option<ReadingView> {
    match r {
        Some(x) => Some((x.date@, x.time@, x.day as int)),
        None => None,
    }
}

/// Parses the zone's name with `chrono_tz::Tz::from_str`, makes the moment
/// with `chrono::TimeZone::timestamp_opt` and moves it into the zone with
/// `chrono::DateTime::with_timezone`; takes the zone's local time with
/// `chrono::NaiveDateTime::checked_add_offset`, which gives nothing where
/// that time is out of range; writes date and time of day with
/// `chrono::DateTime::format` and counts the days with
/// `chrono::Datelike::num_days_from_ce`. The result depends on the four
/// arguments alone: the zones' rules are compiled into `chrono_tz`.
#[verifier::external_body]
fn read_zone(now: i64, zone: &str, date_format: &str, time_format: &str) -> (r: Option<Reading>)
    ensures
        reading_view(r) == zone_reading(now as int, zone@, date_format@, time_format@),
{
    let tz: chrono_tz::Tz = zone.parse().ok()?;
    let utc = chrono::TimeZone::timestamp_opt(&chrono::Utc, now, 0).single()?;
    let local = utc.with_timezone(&tz);
    let wall = local.naive_utc().checked_add_offset(chrono::Offset::fix(local.offset()))?;
    let mut date = String::new();
    write!(date, "{}", local.format(date_format)).ok()?;
    let mut time = String::new();
    write!(time, "{}", local.format(time_format)).ok()?;
    Some(Reading { date, time, day: chrono::Datelike::num_days_from_ce(&wall.date()) })
}

/// Makes the offset with `chrono::FixedOffset::east_opt` and the moment with
/// `chrono::TimeZone::timestamp_opt`, moves the moment to the offset with
/// `chrono::DateTime::with_timezone` and writes its date with
/// `chrono::DateTime::format`.
#[verifier::external_body]
fn read_offset_date(now: i64, east: i32, date_format: &str) -> (r: Option<String>)
    ensures
        crate::user::opt_text(r) == offset_date(now as int, east as int, date_format@),
{
    let offset = chrono::FixedOffset::east_opt(east)?;
    let utc = chrono::TimeZone::timestamp_opt(&chrono::Utc, now, 0).single()?;
    let mut date = String::new();
    write!(date, "{}", utc.with_timezone(&offset).format(date_format)).ok()?;
    Some(date)
}

/// How a day is called that lies `delta` days after the user's today: by
/// its name where it is at most two days off, by its date otherwise.
pub open spec fn pretty_day(delta: int, date: Seq<char>) -> Seq<char> {
    if delta == -2 {
        "the day before yesterday"@
    } else if delta == -1 {
        "yesterday"@
    } else if delta == 0 {
        "today"@
    } else if delta == 1 {
        "tomorrow"@
    } else if delta == 2 {
        "the day after tomorrow"@
    } else {
        date
    }
}

/// The line for one place: its sign, its day as the user would call it, and
/// its time of day.
pub open spec fn zone_line(sign: Seq<char>, reading: ReadingView, user_day: int) -> Seq<char> {
    "\n"@ + sign + " "@ + pretty_day(reading.2 - user_day, reading.0) + " at "@ + reading.1
}

/// The places that the clock tells the time of, each with its sign.
pub open spec fn zone_list() -> Seq<(Seq<char>, Seq<char>)> {
    seq![
        ("🇺🇸"@, "America/New_York"@),
        ("🇺🇳"@, "Etc/UTC"@),
        ("🇦🇹"@, "Europe/Vienna"@),
        ("🇮🇳"@, "Asia/Kolkata"@),
        ("🇦🇺"@, "Australia/Melbourne"@),
    ]
}

/// The lines for a run of places, one after the other; none where a place
/// has no reading.
pub open spec fn zone_lines(now: int, user_day: int, zones: Seq<(Seq<char>, Seq<char>)>) -> Option<
    Seq<char>,
>
    decreases zones.len(),
{
    if zones.len() == 0 {
        Some(Seq::empty())
    } else {
        match (zone_lines(now, user_day, zones.drop_last()), zone_reading(now, zones.last().1, DATE_FORMAT@, TIME_FORMAT@)) {
            (Some(front), Some(r)) => Some(front + zone_line(zones.last().0, r, user_day)),
            _ => None,
        }
    }
}

/// What the clock says at a moment of so many beats: the date and the beats
/// of Internet Time, then a line for each place. It says nothing where a
/// reading is missing.
pub open spec fn clox_text(now: int, beats: nat) -> Option<Seq<char>> {
    match (
        offset_date(now, INTERNET_TIME_EAST as int, DATE_FORMAT@),
        zone_reading(now, USER_ZONE@, DATE_FORMAT@, TIME_FORMAT@),
    ) {
        (Some(date), Some(user)) => match zone_lines(now, user.2, zone_list()) {
            Some(lines) => Some(
                "In Internet Time™ it's "@ + date + "@"@ + digits(beats) + ". That's..."@ + lines,
            ),
            None => None,
        },
        _ => None,
    }
}

/// How a day is called that lies `delta` days after the user's today.
pub fn name_day(delta: i64, date: &str) -> (s: String)
    ensures
        s@ == pretty_day(delta as int, date@),
{
    if delta == -2 {
        String::from_str("the day before yesterday")
    } else if delta == -1 {
        String::from_str("yesterday")
    } else if delta == 0 {
        String::from_str("today")
    } else if delta == 1 {
        String::from_str("tomorrow")
    } else if delta == 2 {
        String::from_str("the day after tomorrow")
    } else {
        String::from_str(date)
    }
}

/// The line for one place.
pub fn line_for(sign: &str, reading: &Reading, user_day: i32) -> (s: String)
    ensures
        s@ == zone_line(sign@, (reading.date@, reading.time@, reading.day as int), user_day as int),
{
    let delta: i64 = reading.day as i64 - user_day as i64;
    let day = name_day(delta, reading.date.as_str());
    String::from_str("\n").concat(sign).concat(" ").concat(day.as_str()).concat(" at ").concat(
        reading.time.as_str(),
    )
}

/// The clock reactor of this name: one handler, for events that are
/// addressed to the bot and begin with "clox", which always answers. Its
/// clock stands at the beginning of 1970 until it is wound.
pub fn new(seed: Seed) -> (r: Clox)
    ensures
        r.wf(),
        r.core_spec().name@ == seed.name@,
        r.now() == 0,
        r.beats() == 0,
{
    let mut handlers: Vec<Handler<Dispatch, Predicate>> = Vec::new();
    handlers.push(
        Handler {
            predicate: Predicate::TextStartsWith(String::from_str("clox")),
            require_targeted: true,
            will_respond: true,
            key: Dispatch::HandleClox,
        },
    );
    Clox { core: Core { name: seed.name.clone(), handlers }, now: 0, beats: 0 }
}

impl Reactor for Clox {
    type Dispatcher = Dispatch;

    type Test = Predicate;

    closed spec fn core_spec(&self) -> &Core<Dispatch, Predicate> {
        &self.core
    }

    open spec fn may_send(&self, key: &Dispatch, event: EventView, out: Seq<MessageView>) -> bool {
        out == match clox_text(self.now(), self.beats()) {
            Some(text) => seq![MessageView::Reply(reply_for(event, text, self.core_spec().name@))],
            None => Seq::empty(),
        }
    }

    fn get_core(&self) -> &Core<Dispatch, Predicate> {
        &self.core
    }

    fn dispatch(&self, key: &Dispatch, event: &Event) -> (out: Vec<Message>) {
        match key {
            Dispatch::HandleClox => {
                let mut out: Vec<Message> = Vec::new();
                match self.handle_clox(event) {
                    Some(m) => {
                        out.push(m);
                        assert(crate::reactor::views(out@) =~= seq![out[0]@]);
                    },
                    None => {
                        assert(crate::reactor::views(out@) =~= Seq::<MessageView>::empty());
                    },
                }
                out
            },
        }
    }
}

/// Whether the clock takes the event: it is addressed to the bot and begins
/// with "clox".
pub open spec fn clox_takes(e: EventView) -> bool {
    e.was_targeted && is_prefix_of("clox"@, e.text)
}

/// What a clock sends for an event, behind the acknowledgement: its one
/// answer where it takes the event and has all its readings, nothing
/// otherwise; and it acknowledges with a promise to answer exactly where it
/// takes the event.
pub proof fn lemma_clox_answers(r: &Clox, e: EventView, out: Seq<MessageView>)
    requires
        r.wf(),
        sent_for(r, matched(r.core_spec().handlers@, e), e, out),
    ensures
        some_will_respond(r.core_spec().handlers@, e) == clox_takes(e),
        out == match clox_text(r.now(), r.beats()) {
            Some(text) if clox_takes(e) => seq![
                MessageView::Reply(reply_for(e, text, r.core_spec().name@)),
            ],
            _ => Seq::<MessageView>::empty(),
        },
{
    let hs = r.core_spec().handlers@;
    assert(hs.drop_last() =~= Seq::<Handler<Dispatch, Predicate>>::empty());
    assert(hs.last() == hs[0]);
    assert(hs[0].applies(e) == clox_takes(e));
    let keys = matched(hs, e);
    assert(matched(hs.drop_last(), e) =~= Seq::<int>::empty());
    if clox_takes(e) {
        assert(keys =~= seq![0int]);
        assert(keys.drop_last() =~= Seq::<int>::empty());
        let k = choose|k: int|
            0 <= k <= out.len() && sent_for(r, keys.drop_last(), e, #[trigger] out.take(k)) && 0
                <= keys.last() < r.core_spec().handlers.len() && r.may_send(
                &r.core_spec().handlers[keys.last()].key,
                e,
                out.skip(k),
            );
        assert(out.take(k).len() == 0);
        assert(out.skip(k) =~= out);
        assert(hs[0].applies(e) && hs[0].will_respond);
    } else {
        assert(keys =~= Seq::<int>::empty());
        assert(out =~= Seq::<MessageView>::empty());
    }
}

impl Clox {
    /// The one handler is for events that are addressed to the bot and begin
    /// with "clox", and it always answers.
    pub closed spec fn wf(&self) -> bool {
        &&& self.core.handlers.len() == 1
        &&& self.core.handlers[0].require_targeted
        &&& self.core.handlers[0].will_respond
        &&& self.core.handlers[0].predicate->TextStartsWith_0@ == "clox"@
    }

    /// The moment at which the clock stands, in seconds since 1970.
    pub closed spec fn now(&self) -> int {
        self.now as int
    }

    /// The beats of Internet Time at which the clock stands.
    pub closed spec fn beats(&self) -> nat {
        self.beats as nat
    }

    /// Sets the clock: to a moment, in seconds since 1970, and to the beats of
    /// Internet Time at that moment.
    pub fn wind(&mut self, now: i64, beats: u32)
        ensures
            final(self).wf() == old(self).wf(),
            final(self).core_spec() == old(self).core_spec(),
            final(self).now() == now,
            final(self).beats() == beats,
    {
        self.now = now;
        self.beats = beats;
    }

    /// The lines for the places, one after the other.
    fn lines(&self, user_day: i32) -> (r: Option<String>)
        ensures
            crate::user::opt_text(r) == zone_lines(self.now(), user_day as int, zone_list()),
    {
        let signs: [&str; 5] = ["🇺🇸", "🇺🇳", "🇦🇹", "🇮🇳", "🇦🇺"];
        let names: [&str; 5] = [
            "America/New_York",
            "Etc/UTC",
            "Europe/Vienna",
            "Asia/Kolkata",
            "Australia/Melbourne",
        ];
        let ghost zones = zone_list();
        let mut text = String::new();
        let mut i: usize = 0;
        assert(zones.take(0) =~= Seq::<(Seq<char>, Seq<char>)>::empty());
        while i < 5
            invariant
                i <= 5,
                zones == zone_list(),
                forall|j: int| 0 <= j < 5 ==> (#[trigger] signs[j])@ == zones[j].0,
                forall|j: int| 0 <= j < 5 ==> (#[trigger] names[j])@ == zones[j].1,
                zone_lines(self.now(), user_day as int, zones.take(i as int)) == Some(text@),
            decreases 5 - i,
        {
            proof {
                assert(zones.take(i + 1).drop_last() =~= zones.take(i as int));
                assert(zones.take(i + 1).last() == zones[i as int]);
            }
            match read_zone(self.now, names[i], DATE_FORMAT, TIME_FORMAT) {
                Some(reading) => {
                    let line = line_for(signs[i], &reading, user_day);
                    text.append(line.as_str());
                },
                None => {
                    proof {
                        lemma_missing_reading(self.now(), user_day as int, zones, i as int);
                    }
                    return None;
                },
            }
            i += 1;
        }
        assert(zones.take(5) =~= zones);
        Some(text)
    }

    /// The clock's answer to an event; none where a reading is missing.
    pub fn handle_clox(&self, event: &Event) -> (m: Option<Message>)
        ensures
            match clox_text(self.now(), self.beats()) {
                Some(text) => m.is_some() && m.unwrap()@ == MessageView::Reply(
                    reply_for(event@, text, self.core_spec().name@),
                ),
                None => m.is_none(),
            },
    {
        let date = match read_offset_date(self.now, INTERNET_TIME_EAST, DATE_FORMAT) {
            Some(d) => d,
            None => {
                return None;
            },
        };
        let user_time = match read_zone(self.now, USER_ZONE, DATE_FORMAT, TIME_FORMAT) {
            Some(r) => r,
            None => {
                return None;
            },
        };
        let lines = match self.lines(user_time.day) {
            Some(l) => l,
            None => {
                return None;
            },
        };
        let text = String::from_str("In Internet Time™ it's ").concat(date.as_str()).concat(
            "@",
        ).concat(decimal(self.beats).as_str()).concat(". That's...").concat(lines.as_str());
        Some(self.reply_to(event, text.as_str()))
    }
}

/// Where one place has no reading, the lines for all places are missing.
pub proof fn lemma_missing_reading(
    now: int,
    user_day: int,
    zones: Seq<(Seq<char>, Seq<char>)>,
    i: int,
)
    requires
        0 <= i < zones.len(),
        zone_reading(now, zones[i].1, DATE_FORMAT@, TIME_FORMAT@).is_none(),
    ensures
        zone_lines(now, user_day, zones).is_none(),
    decreases zones.len(),
{
    if i < zones.len() - 1 {
        lemma_missing_reading(now, user_day, zones.drop_last(), i);
    }
}

} // verus!
