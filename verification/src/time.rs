//! Time zones and clock readings: the `time` command, and the clock work
//! that reminders at a time of day need.
//!
//! A time zone is named by one of a few abbreviations (any case); an unknown
//! abbreviation means UTC. Requests:
//! - `cc time ZONE` at the end of a message: the current time in ZONE;
//! - `cc time ZONE H:MM in ZONE2`: a time of today in ZONE, as read in ZONE2;
//! - anything else: explain the command.
use vstd::prelude::*;
use crate::text::{
    chars_of, join, join_strs, lowercase, mention, occurs_at, push_mention, string_of_range,
    text_eq, to_lowercase, views,
};
use crate::pattern::{Class, first_from, in_class, in_class_exec, lit_at, run_end, run_len};
use crate::commands::HelpCommands;

verus! {

// ----------------------------------------------------------------------------
// Zones
// ----------------------------------------------------------------------------

/// The time zone that an abbreviation, already in lower case, stands for.
pub open spec fn zone_for(lowered: Seq<char>) -> Seq<char> {
    if lowered == "utc"@ {
        "UTC"@
    } else if lowered == "est"@ {
        "America/New_York"@
    } else if lowered == "cst"@ {
        "America/Chicago"@
    } else if lowered == "mst"@ {
        "America/Denver"@
    } else if lowered == "pst"@ {
        "America/Los_Angeles"@
    } else if lowered == "sast"@ {
        "Africa/Johannesburg"@
    } else if lowered == "uk"@ {
        "Europe/London"@
    } else {
        "UTC"@
    }
}

/// The zones that abbreviations stand for.
pub open spec fn known_zone(z: Seq<char>) -> bool {
    ||| z == "UTC"@
    ||| z == "America/New_York"@
    ||| z == "America/Chicago"@
    ||| z == "America/Denver"@
    ||| z == "America/Los_Angeles"@
    ||| z == "Africa/Johannesburg"@
    ||| z == "Europe/London"@
}

/// The time zone that the lower-case abbreviation `lowered` stands for.
pub fn timezone_for(lowered: &str) -> (r: &'static str)
    ensures
        r@ == zone_for(lowered@),
        known_zone(r@),
{
    if text_eq(lowered, "utc") {
        "UTC"
    } else if text_eq(lowered, "est") {
        "America/New_York"
    } else if text_eq(lowered, "cst") {
        "America/Chicago"
    } else if text_eq(lowered, "mst") {
        "America/Denver"
    } else if text_eq(lowered, "pst") {
        "America/Los_Angeles"
    } else if text_eq(lowered, "sast") {
        "Africa/Johannesburg"
    } else if text_eq(lowered, "uk") {
        "Europe/London"
    } else {
        "UTC"
    }
}

// ----------------------------------------------------------------------------
// Clock readings (chrono)
// ----------------------------------------------------------------------------

/// An instant: seconds since 1970-01-01 00:00:00 UTC and the nanoseconds
/// past that second, as `chrono` counts them.
#[derive(Clone, Copy, Debug, PartialEq, Eq)]
pub struct Instant {
    pub secs: i64,
    pub nanos: u32,
}

#[verifier::external_type_specification]
#[verifier::external_body]
pub struct ExParseError(chrono::ParseError);

/// Whether `chrono::DateTime::from_timestamp(secs, nanos)` gives a date and
/// time (it does for every instant that chrono itself produced).
pub uninterp spec fn chrono_instant(secs: i64, nanos: u32) -> bool;

/// The text that `chrono` formats, with the format `fmt`, for the instant
/// `(secs, nanos)` as seen in the time zone `zone`.
pub uninterp spec fn zone_clock(secs: i64, nanos: u32, zone: Seq<char>, fmt: Seq<char>) -> Seq<
    char,
>;

/// The instant that `chrono::DateTime::parse_from_str` reads from `text`
/// with the format `fmt`, if it reads one.
pub uninterp spec fn offset_time(text: Seq<char>, fmt: Seq<char>) -> Option<(i64, u32)>;

/// The formats that the time replies use.
pub open spec fn known_format(fmt: Seq<char>) -> bool {
    fmt == "%Y-%m-%d"@ || fmt == "%z"@ || fmt == "%H:%M:%S %Z"@
}

/// The machine's clock (`std::time::SystemTime::now`), read as the time
/// since 1970-01-01 00:00:00 UTC (`duration_since(UNIX_EPOCH)`): whole
/// seconds and the nanoseconds past them (`as_secs`, `subsec_nanos`).
/// `None` when the clock reads a time before 1970, where `duration_since`
/// gives an error. Nothing is claimed of the value but that the
/// nanoseconds make less than a second.
#[verifier::external_body]
pub(crate) fn since_epoch() -> (r: Option<(u64, u32)>)
    ensures
        r matches Some(t) ==> t.1 < 1_000_000_000,
{
    match std::time::SystemTime::now().duration_since(std::time::UNIX_EPOCH) {
        Ok(d) => Some((d.as_secs(), d.subsec_nanos())),
        Err(_) => None,
    }
}

/// `chrono::DateTime::from_timestamp(secs, nanos)`, asked whether it gives
/// a date and time. The answer is claimed to be `chrono_instant(secs,
/// nanos)`, a function of the two.
#[verifier::external_body]
fn valid_timestamp(secs: i64, nanos: u32) -> (r: bool)
    ensures
        r == chrono_instant(secs, nanos),
{
    chrono::DateTime::from_timestamp(secs, nanos).is_some()
}

/// The current instant, read as `chrono::Utc::now` reads it: the clock's
/// seconds since 1970 (as an `i64`) and nanoseconds, when chrono can
/// represent them; `None` when the clock reads a time before 1970 or one
/// chrono cannot represent, where `Utc::now` would stop the program.
pub(crate) fn utc_now() -> (r: Option<Instant>)
    ensures
        r matches Some(i) ==> chrono_instant(i.secs, i.nanos) && i.nanos < 1_000_000_000,
{
    match since_epoch() {
        Some((secs, nanos)) => instant_of(secs, nanos),
        None => None,
    }
}

/// The instant that a clock reading of `secs` whole seconds and `nanos`
/// nanoseconds since 1970 stands for, as `chrono::Utc::now` takes it: the
/// seconds as an `i64` and the nanoseconds as they are, when chrono can
/// represent that instant.
pub open spec fn reading_instant(secs: u64, nanos: u32) -> Option<Instant> {
    if chrono_instant(secs as i64, nanos) {
        Some(Instant { secs: secs as i64, nanos })
    } else {
        None
    }
}

/// The instant of the clock reading `(secs, nanos)` (see
/// `reading_instant`).
pub fn instant_of(secs: u64, nanos: u32) -> (r: Option<Instant>)
    ensures
        r == reading_instant(secs, nanos),
{
    let s = secs as i64;
    if valid_timestamp(s, nanos) {
        Some(Instant { secs: s, nanos })
    } else {
        None
    }
}

/// The instant of a clock reading keeps the reading: the same number of
/// seconds (those below 2^63 unchanged) and the same nanoseconds, and two
/// readings that differ give different instants.
pub proof fn law_reading_kept(secs: u64, nanos: u32, secs2: u64, nanos2: u32)
    ensures
        reading_instant(secs, nanos) matches Some(i) ==> i.nanos == nanos && (secs <= i64::MAX
            ==> i.secs == secs),
        reading_instant(secs, nanos) matches Some(i) ==> (reading_instant(secs2, nanos2) matches Some(
            j,
        ) ==> (i == j <==> (secs as i64 == secs2 as i64 && nanos == nanos2))),
{
}

/// `chrono::DateTime::with_timezone` to the zone `zone` (parsed by
/// `chrono_tz`), then `format(fmt)`: the instant's date or time of day as
/// seen in that zone. The zone names and formats that are admitted are
/// valid for `chrono_tz` and `chrono`, and the instant is one chrono can
/// represent, so nothing here fails. The text is claimed to be
/// `zone_clock(secs, nanos, zone, fmt)`, a function of the arguments.
#[verifier::external_body]
fn format_in_zone(at: Instant, zone: &str, fmt: &str) -> (r: String)
    requires
        known_zone(zone@),
        known_format(fmt@),
        chrono_instant(at.secs, at.nanos),
    ensures
        r@ == zone_clock(at.secs, at.nanos, zone@, fmt@),
{
    let tz: chrono_tz::Tz = zone.parse().unwrap();
    let utc = chrono::DateTime::from_timestamp(at.secs, at.nanos).unwrap();
    utc.with_timezone(&tz).format(fmt).to_string()
}

/// `chrono::DateTime::parse_from_str(text, fmt)`: the instant that `text`
/// writes (a date, a time and a UTC offset), or chrono's parse error. The
/// instant is claimed to be `offset_time(text, fmt)`, a function of the
/// arguments, and one that chrono can represent again.
#[verifier::external_body]
fn parse_from_str(text: &str, fmt: &str) -> (r: Result<Instant, chrono::ParseError>)
    ensures
        match r {
            Ok(at) => offset_time(text@, fmt@) == Some((at.secs, at.nanos)) && chrono_instant(
                at.secs,
                at.nanos,
            ),
            Err(_) => offset_time(text@, fmt@) is None,
        },
{
    match chrono::DateTime::parse_from_str(text, fmt) {
        Ok(t) => Ok(Instant { secs: t.timestamp(), nanos: t.timestamp_subsec_nanos() }),
        Err(e) => Err(e),
    }
}

/// The text of today's date and UTC offset in `zone` at the instant `now`,
/// with the time of day `time` (`H:MM`) put between them, as chrono reads
/// it back: `"YYYY-MM-DD H:MM:00 +HHMM"`.
pub open spec fn today_at(now: Instant, zone: Seq<char>, time: Seq<char>) -> Seq<char> {
    zone_clock(now.secs, now.nanos, zone, "%Y-%m-%d"@) + " "@ + time + ":00 "@ + zone_clock(
        now.secs,
        now.nanos,
        zone,
        "%z"@,
    )
}

/// The format in which `today_at` is read.
pub open spec fn stamp_format() -> Seq<char> {
    "%Y-%m-%d %H:%M:%S %z"@
}

/// Builds `today_at(now, zone, time)`.
fn today_at_exec(now: Instant, zone: &str, time: &str) -> (r: String)
    requires
        known_zone(zone@),
        chrono_instant(now.secs, now.nanos),
    ensures
        r@ == today_at(now, zone@, time@),
{
    let mut r = format_in_zone(now, zone, "%Y-%m-%d");
    r.append(" ");
    r.append(time);
    r.append(":00 ");
    let off = format_in_zone(now, zone, "%z");
    r.append(off.as_str());
    r
}

/// Errors of the time computations.
#[derive(Debug)]
pub enum TimeError {
    /// A time of day that chrono could not read.
    Parse(chrono::ParseError),
    /// The machine's clock reads a time before 1970, or one that chrono
    /// cannot represent.
    Clock,
}

/// The instant that the time of day `time` of today in `zone` (today as of
/// the instant `now`) stands for.
pub fn time_today(now: Instant, zone: &str, time: &str) -> (r: Result<Instant, TimeError>)
    requires
        known_zone(zone@),
        chrono_instant(now.secs, now.nanos),
    ensures
        match r {
            Ok(at) => offset_time(today_at(now, zone@, time@), stamp_format()) == Some(
                (at.secs, at.nanos),
            ) && chrono_instant(at.secs, at.nanos),
            Err(e) => e is Parse && offset_time(today_at(now, zone@, time@), stamp_format()) is None,
        },
{
    let stamp = today_at_exec(now, zone, time);
    match parse_from_str(stamp.as_str(), "%Y-%m-%d %H:%M:%S %z") {
        Ok(at) => Ok(at),
        Err(e) => Err(TimeError::Parse(e)),
    }
}

// ----------------------------------------------------------------------------
// The command
// ----------------------------------------------------------------------------

/// The settings of the command (it has none).
#[derive(Clone, Debug)]
pub struct TimeConfig {}

/// The `time` command.
pub struct TimeCommand {
    matches: Vec<&'static str>,
    _config: TimeConfig,
}

/// `cc time ZONE` starts at `p` (the zone's name is `run_len` long).
pub open spec fn zone_req(s: Seq<char>) -> spec_fn(int) -> bool {
    |p: int| occurs_at(s, p, "cc time "@) && run_len(s, p + 8, Class::Word) > 0
}

/// `cc time ZONE` starts at `p` and ends the message.
pub open spec fn zone_req_at_end(s: Seq<char>) -> spec_fn(int) -> bool {
    |p: int| zone_req(s)(p) && p + 8 + run_len(s, p + 8, Class::Word) == s.len()
}

/// The length of the hours of a `H:MM` or `HH:MM` at `b`: two when the
/// second character is a digit too.
pub open spec fn hour_len(s: Seq<char>, b: int) -> int {
    if b + 1 < s.len() && in_class(Class::Digit, s[b + 1]) {
        2
    } else {
        1
    }
}

/// Where the parts of a conversion request at `p` begin: the time and the
/// second zone.
pub open spec fn convert_parts(s: Seq<char>, p: int) -> (int, int) {
    let b = p + 8 + run_len(s, p + 8, Class::Word) + 1;
    (b, b + hour_len(s, b) + 3 + 4)
}

/// `cc time ZONE H:MM in ZONE2` starts at `p`.
pub open spec fn convert_req(s: Seq<char>) -> spec_fn(int) -> bool {
    |p: int|
        {
            let (b, c) = convert_parts(s, p);
            let h = hour_len(s, b);
            &&& zone_req(s)(p)
            &&& occurs_at(s, b - 1, " "@)
            &&& b < s.len() && in_class(Class::Digit, s[b])
            &&& occurs_at(s, b + h, ":"@)
            &&& b + h + 2 < s.len() && in_class(Class::Digit, s[b + h + 1]) && in_class(
                Class::Digit,
                s[b + h + 2],
            )
            &&& occurs_at(s, b + h + 3, " in "@)
            &&& run_len(s, c, Class::Word) > 0
        }
}

/// The first zone, the time, and the second zone of a conversion request.
pub open spec fn convert_captures(s: Seq<char>) -> (Seq<char>, Seq<char>, Seq<char>) {
    match first_from(convert_req(s), 0, s.len() as int) {
        Some(p) => {
            let (b, c) = convert_parts(s, p);
            (
                s.subrange(p + 8, p + 8 + run_len(s, p + 8, Class::Word)),
                s.subrange(b, b + hour_len(s, b) + 3),
                s.subrange(c, c + run_len(s, c, Class::Word)),
            )
        },
        None => ("utc"@, "00:00"@, "utc"@),
    }
}

/// The zone abbreviation of a `cc time ZONE` request ("utc" when there is
/// none).
pub open spec fn zone_capture(s: Seq<char>) -> Seq<char> {
    match first_from(zone_req(s), 0, s.len() as int) {
        Some(p) => s.subrange(p + 8, p + 8 + run_len(s, p + 8, Class::Word)),
        None => "utc"@,
    }
}

/// The help lines of the command.
pub open spec fn time_help() -> Seq<Seq<char>> {
    seq![
        "   time <timezone> - Responds with the time at the specified timezone"@,
        "       Example: cc time sast"@,
        "       Example: cc time est"@,
        "   time <timezone> <time> in <timezone> - Responds with the time at the specified timezone"@,
        "       Example: cc time sast 11:40 in est"@,
        "       Example: cc time est 11:40 in uk"@,
    ]
}

impl HelpCommands for TimeCommand {
    open spec fn help_view() -> Seq<Seq<char>> {
        time_help()
    }

    fn help() -> (r: Vec<&'static str>)
        ensures
            views(r@) == time_help(),
    {
        let r = vec![
            "   time <timezone> - Responds with the time at the specified timezone",
            "       Example: cc time sast",
            "       Example: cc time est",
            "   time <timezone> <time> in <timezone> - Responds with the time at the specified timezone",
            "       Example: cc time sast 11:40 in est",
            "       Example: cc time est 11:40 in uk",
        ];
        assert(views(r@) =~= time_help());
        r
    }
}

/// What a message asks of the command.
pub enum TimeRequest {
    /// The current time somewhere.
    TimeAt,
    /// A time of today converted to another zone.
    Convert,
    /// Explain the command.
    Help,
}

/// Where the first `cc time ZONE` request of `v` starts.
fn find_zone_req(v: &Vec<char>, at_end: bool) -> (r: Option<usize>)
    ensures
        !at_end ==> (r is None <==> first_from(zone_req(v@), 0, v@.len() as int) is None),
        !at_end ==> (r matches Some(p) ==> first_from(zone_req(v@), 0, v@.len() as int) == Some(
            p as int,
        )),
        at_end ==> (r is None <==> first_from(zone_req_at_end(v@), 0, v@.len() as int) is None),
        at_end ==> (r matches Some(p) ==> first_from(zone_req_at_end(v@), 0, v@.len() as int)
            == Some(p as int)),
        r matches Some(p) ==> p + 8 + run_len(v@, p + 8, Class::Word) <= v@.len(),
{
    let ghost ok = if at_end {
        zone_req_at_end(v@)
    } else {
        zone_req(v@)
    };
    let mut p: usize = 0;
    loop
        invariant
            p <= v.len(),
            ok == (if at_end {
                zone_req_at_end(v@)
            } else {
                zone_req(v@)
            }),
            first_from(ok, 0, v@.len() as int) == first_from(ok, p as int, v@.len() as int),
        decreases v.len() - p,
    {
        proof {
            reveal_strlit("cc time ");
        }
        if lit_at(v, p, "cc time ") {
            let a = p + 8;
            let e = run_end(v, a, Class::Word);
            if e > a && (!at_end || e == v.len()) {
                assert(ok(p as int));
                return Some(p);
            }
        }
        assert(!ok(p as int));
        if p == v.len() {
            assert(first_from(ok, p + 1, v@.len() as int) is None);
            return None;
        }
        p = p + 1;
    }
}

/// Whether `v[i]` is a `\d` digit.
fn digit_at(v: &Vec<char>, i: usize) -> (r: bool)
    ensures
        r == (i < v@.len() && in_class(Class::Digit, v@[i as int])),
{
    i < v.len() && in_class_exec(Class::Digit, v[i])
}

/// Where the first conversion request of `v` starts.
fn find_convert(v: &Vec<char>) -> (r: Option<usize>)
    ensures
        r is None <==> first_from(convert_req(v@), 0, v@.len() as int) is None,
        r matches Some(p) ==> first_from(convert_req(v@), 0, v@.len() as int) == Some(p as int),
        r matches Some(p) ==> ({
            let (b, c) = convert_parts(v@, p as int);
            c + run_len(v@, c, Class::Word) <= v@.len()
        }),
{
    let mut p: usize = 0;
    loop
        invariant
            p <= v.len(),
            first_from(convert_req(v@), 0, v@.len() as int) == first_from(
                convert_req(v@),
                p as int,
                v@.len() as int,
            ),
        decreases v.len() - p,
    {
        proof {
            reveal_strlit("cc time ");
            reveal_strlit(" ");
            reveal_strlit(":");
            reveal_strlit(" in ");
        }
        if lit_at(v, p, "cc time ") {
            let a = p + 8;
            let e = run_end(v, a, Class::Word);
            if e > a && lit_at(v, e, " ") {
                let b = e + 1;
                if digit_at(v, b) {
                    let h: usize = if digit_at(v, b + 1) {
                        2
                    } else {
                        1
                    };
                    if lit_at(v, b + h, ":") && digit_at(v, b + h + 1) && digit_at(v, b + h + 2)
                        && lit_at(v, b + h + 3, " in ") {
                        let c = b + h + 7;
                        let ec = run_end(v, c, Class::Word);
                        if ec > c {
                            assert(convert_req(v@)(p as int));
                            return Some(p);
                        }
                    }
                }
            }
        }
        assert(!convert_req(v@)(p as int));
        if p == v.len() {
            assert(first_from(convert_req(v@), p + 1, v@.len() as int) is None);
            return None;
        }
        p = p + 1;
    }
}

/// What the message text `s` asks of the command.
pub open spec fn time_request(s: Seq<char>) -> TimeRequest {
    if first_from(zone_req_at_end(s), 0, s.len() as int) is Some {
        TimeRequest::TimeAt
    } else if first_from(convert_req(s), 0, s.len() as int) is Some {
        TimeRequest::Convert
    } else {
        TimeRequest::Help
    }
}

/// The reply to a request for the current time: `<@ID>, the time is CLOCK`.
pub open spec fn time_at_reply(author: nat, clock: Seq<char>) -> Seq<char> {
    mention(author) + ", the time is "@ + clock
}

/// The reply to a conversion request: `<@ID>, TIME1 is TIME2`.
pub open spec fn convert_reply(author: nat, t1: Seq<char>, t2: Seq<char>) -> Seq<char> {
    mention(author) + ", "@ + t1 + " is "@ + t2
}

/// The format of a clock reading in a reply.
pub open spec fn clock_format() -> Seq<char> {
    "%H:%M:%S %Z"@
}

/// Whether `clock` is the time of day at the instant `now` in `zone`, as
/// a reply shows it.
pub open spec fn clock_at(now: Instant, zone: Seq<char>, clock: Seq<char>) -> bool {
    chrono_instant(now.secs, now.nanos) && clock == zone_clock(now.secs, now.nanos, zone, clock_format())
}

/// Whether `text` answers a request for the current time with text `s`
/// from `author`, the clock being read at some instant.
pub open spec fn time_at_answer(s: Seq<char>, author: nat, text: Seq<char>) -> bool {
    exists|now: Instant, clock: Seq<char>|
        #[trigger] clock_at(now, zone_for(lowercase(zone_capture(s))), clock) && text
            == time_at_reply(author, clock)
}

/// Whether `r` answers a conversion request with text `s` from `author`
/// when the clock reads `now`.
pub open spec fn converted_at(now: Instant, s: Seq<char>, author: nat, r: Result<String, TimeError>) -> bool {
    let (z1, t, z2) = convert_captures(s);
    let zone1 = zone_for(lowercase(z1));
    let zone2 = zone_for(lowercase(z2));
    chrono_instant(now.secs, now.nanos) && match offset_time(today_at(now, zone1, t), stamp_format()) {
        Some(at) => r matches Ok(text) && chrono_instant(at.0, at.1) && text@ == convert_reply(
            author,
            zone_clock(at.0, at.1, zone1, clock_format()),
            zone_clock(at.0, at.1, zone2, clock_format()),
        ),
        None => r matches Err(TimeError::Parse(_)),
    }
}

/// A conversion at an instant the clock gave never fails for the clock:
/// it answers, or fails only because chrono cannot read the time of day;
/// and it answers exactly when chrono reads it.
pub proof fn law_conversion_needs_only_the_time_read(
    now: Instant,
    s: Seq<char>,
    author: nat,
    r: Result<String, TimeError>,
)
    requires
        converted_at(now, s, author, r),
    ensures
        !(r matches Err(TimeError::Clock)),
        r is Ok <==> offset_time(
            today_at(now, zone_for(lowercase(convert_captures(s).0)), convert_captures(s).1),
            stamp_format(),
        ) is Some,
{
}

/// Whether `r` answers a conversion request with text `s` from `author`,
/// the clock being read at some instant.
pub open spec fn convert_answer(s: Seq<char>, author: nat, r: Result<String, TimeError>) -> bool {
    exists|now: Instant| #[trigger] converted_at(now, s, author, r)
}

impl TimeCommand {
    /// What the router needs to know of the command: its help lines and
    /// its trigger words.
    pub fn entry(&self) -> (r: crate::commands::CommandEntry)
        ensures
            r.matches@ == self.trigger_words(),
            !r.mention_is,
            crate::text::views(r.help@) == time_help(),
    {
        let help: Vec<&'static str> = <TimeCommand as HelpCommands>::help();
        proof {
            assert(crate::text::views(help@) =~= time_help());
        }
        crate::commands::CommandEntry {
            help,
            matches: crate::commands::copy_words(&self.matches),
            mention_is: false,
        }
    }

    /// The answer to the message text `content` from `author`: the current
    /// time, a converted time, or the explanation of the command.
    pub fn respond(&self, content: &str, author: u64) -> (r: Result<String, TimeError>)
        ensures
            time_request(content@) is TimeAt ==> (r matches Ok(text) && time_at_answer(
                content@,
                author as nat,
                text@,
            )) || r matches Err(TimeError::Clock),
            time_request(content@) is Convert ==> r matches Err(TimeError::Clock) || convert_answer(
                content@,
                author as nat,
                r,
            ),
            time_request(content@) is Help ==> (r matches Ok(text) && text@ == "Time Commands: \n"@
                + join(time_help(), "\n"@)),
    {
        let now = utc_now();
        let r = self.respond_at(content, author, now);
        proof {
            if let Some(i) = now {
                if time_request(content@) is TimeAt {
                    let clock = zone_clock(
                        i.secs,
                        i.nanos,
                        zone_for(lowercase(zone_capture(content@))),
                        clock_format(),
                    );
                    assert(clock_at(i, zone_for(lowercase(zone_capture(content@))), clock));
                }
                if time_request(content@) is Convert {
                    assert(converted_at(i, content@, author as nat, r));
                }
            }
        }
        r
    }

    /// The answer to the message text `content` from `author` when the
    /// clock gives the instant `now` (`None`: no instant chrono can show):
    /// the current time at `now`, the conversion with today as of `now`,
    /// or the explanation of the command, which needs no clock.
    pub fn respond_at(&self, content: &str, author: u64, now: Option<Instant>) -> (r: Result<
        String,
        TimeError,
    >)
        requires
            now matches Some(i) ==> chrono_instant(i.secs, i.nanos),
        ensures
            time_request(content@) is TimeAt ==> match now {
                Some(i) => r matches Ok(text) && text@ == time_at_reply(
                    author as nat,
                    zone_clock(
                        i.secs,
                        i.nanos,
                        zone_for(lowercase(zone_capture(content@))),
                        clock_format(),
                    ),
                ),
                None => r matches Err(TimeError::Clock),
            },
            time_request(content@) is Convert ==> match now {
                Some(i) => converted_at(i, content@, author as nat, r),
                None => r matches Err(TimeError::Clock),
            },
            time_request(content@) is Help ==> (r matches Ok(text) && text@ == "Time Commands: \n"@
                + join(time_help(), "\n"@)),
    {
        match TimeCommand::request(content) {
            TimeRequest::TimeAt => match now {
                Some(i) => Ok(self.time_at_instant(content, author, i)),
                None => Err(TimeError::Clock),
            },
            TimeRequest::Convert => match now {
                Some(i) => self.convert_at(content, author, i),
                None => Err(TimeError::Clock),
            },
            TimeRequest::Help => Ok(self._help()),
        }
    }

    /// The command, triggered by requests that start with "time".
    pub fn new(config: TimeConfig) -> (r: TimeCommand)
        ensures
            views(r.trigger_words()) == seq!["time"@],
    {
        let r = TimeCommand { matches: vec!["time"], _config: config };
        assert(views(r.matches@) =~= seq!["time"@]);
        r
    }

    /// The words a request for this command starts with.
    pub closed spec fn trigger_words(&self) -> Seq<&'static str> {
        self.matches@
    }

    /// Whether a request is meant for this command.
    pub fn matches(&self, message: &str) -> (r: bool)
        ensures
            r == crate::commands::starts_with_any(self.trigger_words(), message@),
    {
        crate::commands::matches_any(&self.matches, message)
    }

    /// The zone that an abbreviation stands for, case ignored.
    pub fn get_timezone(timezone: &str) -> (r: &'static str)
        ensures
            r@ == zone_for(lowercase(timezone@)),
            known_zone(r@),
    {
        let lowered = to_lowercase(timezone);
        timezone_for(lowered.as_str())
    }

    /// What the message text `content` asks of the command.
    pub fn request(content: &str) -> (r: TimeRequest)
        ensures
            r == time_request(content@),
    {
        let v = chars_of(content);
        if find_zone_req(&v, true).is_some() {
            TimeRequest::TimeAt
        } else if find_convert(&v).is_some() {
            TimeRequest::Convert
        } else {
            TimeRequest::Help
        }
    }

    /// The reply that explains the command.
    pub fn _help(&self) -> (r: String)
        ensures
            r@ == "Time Commands: \n"@ + join(time_help(), "\n"@),
    {
        let mut r = String::new();
        r.append("Time Commands: \n");
        let lines = <TimeCommand as HelpCommands>::help();
        let body = join_strs(&lines, "\n");
        r.append(body.as_str());
        r
    }

    /// The zone abbreviation a `cc time ZONE` request names ("utc" when
    /// there is none).
    pub fn zone_abbreviation(content: &str) -> (r: String)
        ensures
            r@ == zone_capture(content@),
    {
        let v = chars_of(content);
        match find_zone_req(&v, false) {
            Some(p) => {
                let n = v.len();
                assert(p + 8 <= n);
                let e = run_end(&v, p + 8, Class::Word);
                string_of_range(&v, p + 8, e)
            },
            None => {
                proof {
                    reveal_strlit("utc");
                }
                crate::text::string_from("utc")
            },
        }
    }

    /// The reply to a request for the current time, when the clock reads
    /// the instant `now`.
    pub fn time_at_instant(&self, content: &str, author: u64, now: Instant) -> (r: String)
        requires
            chrono_instant(now.secs, now.nanos),
        ensures
            r@ == time_at_reply(
                author as nat,
                zone_clock(
                    now.secs,
                    now.nanos,
                    zone_for(lowercase(zone_capture(content@))),
                    clock_format(),
                ),
            ),
    {
        let abbreviation = TimeCommand::zone_abbreviation(content);
        let zone = TimeCommand::get_timezone(abbreviation.as_str());
        let clock = format_in_zone(now, zone, "%H:%M:%S %Z");
        let mut r = String::new();
        push_mention(&mut r, author);
        r.append(", the time is ");
        r.append(clock.as_str());
        assert(r@ =~= time_at_reply(author as nat, clock@));
        r
    }

    /// The reply to a request for the current time; the clock is read once.
    /// The error `Clock` when the clock gives no instant chrono can show.
    pub fn time_at(&self, content: &str, author: u64) -> (r: Result<String, TimeError>)
        ensures
            match r {
                Ok(text) => time_at_answer(content@, author as nat, text@),
                Err(e) => e is Clock,
            },
    {
        match utc_now() {
            Some(now) => {
                let text = self.time_at_instant(content, author, now);
                let ghost clock = zone_clock(
                    now.secs,
                    now.nanos,
                    zone_for(lowercase(zone_capture(content@))),
                    clock_format(),
                );
                assert(clock_at(now, zone_for(lowercase(zone_capture(content@))), clock));
                Ok(text)
            },
            None => Err(TimeError::Clock),
        }
    }

    /// The three parts of a conversion request: first zone, time, second
    /// zone ("utc", "00:00", "utc" when the message is no such request).
    pub fn convert_parts(content: &str) -> (r: (String, String, String))
        ensures
            (r.0@, r.1@, r.2@) == convert_captures(content@),
    {
        let v = chars_of(content);
        match find_convert(&v) {
            Some(p) => {
                let e = run_end(&v, p + 8, Class::Word);
                let b = e + 1;
                let h: usize = if digit_at(&v, b + 1) {
                    2
                } else {
                    1
                };
                let c = b + h + 7;
                let ec = run_end(&v, c, Class::Word);
                (
                    string_of_range(&v, p + 8, e),
                    string_of_range(&v, b, b + h + 3),
                    string_of_range(&v, c, ec),
                )
            },
            None => {
                proof {
                    reveal_strlit("utc");
                    reveal_strlit("00:00");
                }
                (
                    crate::text::string_from("utc"),
                    crate::text::string_from("00:00"),
                    crate::text::string_from("utc"),
                )
            },
        }
    }

    /// The reply to a conversion request when the clock reads the instant
    /// `now`: the time of today in the first zone, shown in both zones; or
    /// the error chrono gives when that time does not read.
    pub fn convert_at(&self, content: &str, author: u64, now: Instant) -> (r: Result<
        String,
        TimeError,
    >)
        requires
            chrono_instant(now.secs, now.nanos),
        ensures
            converted_at(now, content@, author as nat, r),
    {
        let (z1, t, z2) = TimeCommand::convert_parts(content);
        let zone1 = TimeCommand::get_timezone(z1.as_str());
        let zone2 = TimeCommand::get_timezone(z2.as_str());
        match time_today(now, zone1, t.as_str()) {
            Ok(at) => {
                let t1 = format_in_zone(at, zone1, "%H:%M:%S %Z");
                let t2 = format_in_zone(at, zone2, "%H:%M:%S %Z");
                let mut r = String::new();
                push_mention(&mut r, author);
                r.append(", ");
                r.append(t1.as_str());
                r.append(" is ");
                r.append(t2.as_str());
                assert(r@ =~= convert_reply(author as nat, t1@, t2@));
                Ok(r)
            },
            Err(e) => Err(e),
        }
    }

    /// The reply to a conversion request: the clock is read once, then
    /// `convert_at` answers; the error `Clock` when the clock gives no
    /// instant chrono can show.
    pub fn convert_time(&self, content: &str, author: u64) -> (r: Result<String, TimeError>)
        ensures
            r matches Err(TimeError::Clock) || convert_answer(content@, author as nat, r),
    {
        match utc_now() {
            Some(now) => {
                let r = self.convert_at(content, author, now);
                assert(converted_at(now, content@, author as nat, r));
                r
            },
            None => Err(TimeError::Clock),
        }
    }
}

} // verus!
