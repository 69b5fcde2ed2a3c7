//! The `remind me` command: reading a reminder request, and the texts of
//! the answers.
//!
//! After the words "cc remind me" are removed, a request is one of
//! - `... in N seconds to WHAT`, `... in N minutes to WHAT`,
//!   `... in N hours to WHAT`: remind in so many seconds;
//! - `... at H:M ZONE to WHAT`: remind at a time of day in a time zone;
//! - anything else: explain the command.
//! The first form that occurs anywhere in the request wins, in that order.
use vstd::prelude::*;
use crate::text::{
    chars_of, decimal, join, join_strs, occurs_at, push_decimal, replace, replace_exec,
    string_of_range, views,
};
use crate::pattern::{
    Class, first_from, lemma_first_from, line_end, line_end_exec, lit_at, parse_u64, parses_u64,
    u64_value, run_end, run_len,
};
use crate::commands::{matches_any, starts_with_any, HelpCommands};
use crate::text::{mention, push_mention};
use crate::time::{
    chrono_instant, offset_time, stamp_format, time_today, today_at, zone_for, Instant, TimeCommand,
    TimeError,
};
use crate::text::lowercase;

verus! {

/// A reminder some seconds from now.
#[derive(Clone, Debug, PartialEq, Eq, Hash)]
pub struct RemindIn {
    pub seconds: u64,
    pub what: String,
}

/// A reminder at a time of day in a time zone.
#[derive(Clone, Debug, PartialEq, Eq, Hash)]
pub struct RemindAt {
    pub time: String,
    pub timezone: String,
    pub what: String,
}

/// The settings of the command (it has none).
#[derive(Clone, Debug)]
pub struct RemindConfig {}

/// What a reminder request asks for.
#[derive(Debug, PartialEq, Eq, Hash)]
pub enum SubCommand {
    RemindIn(RemindIn),
    RemindAt(RemindAt),
    Help,
}

/// A reminder request as texts and numbers.
pub enum Reading {
    /// Remind in this many seconds of this.
    In(nat, Seq<char>),
    /// Remind at this time, in this zone, of this.
    At(Seq<char>, Seq<char>, Seq<char>),
    /// Explain the command.
    Help,
    /// A request on which the command stops: its number does not fit in
    /// 64 bits once in seconds, or is written with digits other than
    /// `0`-`9`.
    Invalid,
}

/// The request left once the words "cc remind me" are removed.
pub open spec fn remind_body(content: Seq<char>) -> Seq<char> {
    replace(content, "cc remind me"@, Seq::empty())
}

/// `IN N UNIT` starts at `p`: " in ", digits, then `unit`.
pub open spec fn in_ok(s: Seq<char>, unit: Seq<char>) -> spec_fn(int) -> bool {
    |p: int|
        occurs_at(s, p, " in "@) && run_len(s, p + 4, Class::Digit) > 0 && occurs_at(
            s,
            p + 4 + run_len(s, p + 4, Class::Digit),
            unit,
        )
}

/// The digits of an `IN N UNIT` request at `p`.
pub open spec fn in_digits(s: Seq<char>, p: int) -> Seq<char> {
    s.subrange(p + 4, p + 4 + run_len(s, p + 4, Class::Digit))
}

/// The rest of the line after an `IN N UNIT` request at `p`.
pub open spec fn in_what(s: Seq<char>, p: int, unit: Seq<char>) -> Seq<char> {
    let w = p + 4 + run_len(s, p + 4, Class::Digit) + unit.len();
    s.subrange(w, line_end(s, w))
}

/// Where the parts of an `AT H:M ZONE` request at `p` begin: the hours,
/// the minutes, the zone, and the length of the zone's name.
pub open spec fn at_parts(s: Seq<char>, p: int) -> (int, int, int, int) {
    let a = p + 4;
    let b = a + run_len(s, a, Class::Digit) + 1;
    let c = b + run_len(s, b, Class::Digit) + 1;
    (a, b, c, run_len(s, c, Class::Word) as int)
}

/// `AT H:M ZONE to` starts at `p`.
pub open spec fn at_ok(s: Seq<char>) -> spec_fn(int) -> bool {
    |p: int|
        {
            let (a, b, c, w) = at_parts(s, p);
            &&& occurs_at(s, p, " at "@)
            &&& run_len(s, a, Class::Digit) > 0
            &&& occurs_at(s, b - 1, ":"@)
            &&& run_len(s, b, Class::Digit) > 0
            &&& occurs_at(s, c - 1, " "@)
            &&& w > 0
            &&& occurs_at(s, c + w, " to "@)
        }
}

/// The time, zone and subject of an `AT` request at `p`.
pub open spec fn at_captures(s: Seq<char>, p: int) -> (Seq<char>, Seq<char>, Seq<char>) {
    let (a, b, c, w) = at_parts(s, p);
    let x = c + w + 4;
    (s.subrange(a, c - 1), s.subrange(c, c + w), s.subrange(x, line_end(s, x)))
}

/// How a number of some unit reads in seconds, or `Invalid` when it does
/// not fit.
pub open spec fn in_seconds(digits: Seq<char>, scale: nat, what: Seq<char>) -> Reading {
    if parses_u64(digits) && u64_value(digits) * scale <= u64::MAX {
        Reading::In(u64_value(digits) * scale, what)
    } else {
        Reading::Invalid
    }
}

/// What the request in the message text `content` asks for.
pub open spec fn read_remind(content: Seq<char>) -> Reading {
    let s = remind_body(content);
    let n = s.len() as int;
    if let Some(p) = first_from(in_ok(s, " seconds to "@), 0, n) {
        in_seconds(in_digits(s, p), 1, in_what(s, p, " seconds to "@))
    } else if let Some(p) = first_from(in_ok(s, " minutes to "@), 0, n) {
        in_seconds(in_digits(s, p), 60, in_what(s, p, " minutes to "@))
    } else if let Some(p) = first_from(in_ok(s, " hours to "@), 0, n) {
        in_seconds(in_digits(s, p), 3600, in_what(s, p, " hours to "@))
    } else if let Some(p) = first_from(at_ok(s), 0, n) {
        let (t, z, w) = at_captures(s, p);
        Reading::At(t, z, w)
    } else {
        Reading::Help
    }
}

/// Whether `r` is what the reading `g` describes.
pub open spec fn reads_as(r: SubCommand, g: Reading) -> bool {
    match r {
        SubCommand::RemindIn(x) => g == Reading::In(x.seconds as nat, x.what@),
        SubCommand::RemindAt(x) => g == Reading::At(x.time@, x.timezone@, x.what@),
        SubCommand::Help => g == Reading::Help,
    }
}

/// Where the first `IN N UNIT` request of `v` starts.
fn find_in(v: &Vec<char>, unit: &str) -> (r: Option<usize>)
    ensures
        r is None <==> first_from(in_ok(v@, unit@), 0, v@.len() as int) is None,
        r matches Some(p) ==> first_from(in_ok(v@, unit@), 0, v@.len() as int) == Some(p as int),
        r matches Some(p) ==> p + 4 + run_len(v@, p + 4, Class::Digit) + unit@.len() <= v@.len(),
{
    proof {
        reveal_strlit(" in ");
        lemma_first_from(in_ok(v@, unit@), 0, v@.len() as int);
    }
    let mut p: usize = 0;
    loop
        invariant
            p <= v.len(),
            first_from(in_ok(v@, unit@), 0, v@.len() as int) == first_from(
                in_ok(v@, unit@),
                p as int,
                v@.len() as int,
            ),
        decreases v.len() - p,
    {
        proof {
            reveal_strlit(" in ");
        }
        if lit_at(v, p, " in ") {
            let a = p + 4;
            let e = run_end(v, a, Class::Digit);
            if e > a && lit_at(v, e, unit) {
                assert(in_ok(v@, unit@)(p as int));
                return Some(p);
            }
        }
        assert(!in_ok(v@, unit@)(p as int));
        if p == v.len() {
            assert(first_from(in_ok(v@, unit@), p + 1, v@.len() as int) is None);
            return None;
        }
        p = p + 1;
    }
}

/// Where the first `AT H:M ZONE to` request of `v` starts.
fn find_at(v: &Vec<char>) -> (r: Option<usize>)
    ensures
        r is None <==> first_from(at_ok(v@), 0, v@.len() as int) is None,
        r matches Some(p) ==> first_from(at_ok(v@), 0, v@.len() as int) == Some(p as int),
        r matches Some(p) ==> ({
            let (a, b, c, w) = at_parts(v@, p as int);
            c + w + 4 <= v@.len()
        }),
{
    proof {
        reveal_strlit(" at ");
        reveal_strlit(":");
        reveal_strlit(" ");
        reveal_strlit(" to ");
        lemma_first_from(at_ok(v@), 0, v@.len() as int);
    }
    let mut p: usize = 0;
    loop
        invariant
            p <= v.len(),
            first_from(at_ok(v@), 0, v@.len() as int) == first_from(
                at_ok(v@),
                p as int,
                v@.len() as int,
            ),
        decreases v.len() - p,
    {
        proof {
            reveal_strlit(" at ");
            reveal_strlit(":");
            reveal_strlit(" ");
            reveal_strlit(" to ");
        }
        if lit_at(v, p, " at ") {
            let a = p + 4;
            let ea = run_end(v, a, Class::Digit);
            if ea > a && lit_at(v, ea, ":") {
                let b = ea + 1;
                let eb = run_end(v, b, Class::Digit);
                if eb > b && lit_at(v, eb, " ") {
                    let c = eb + 1;
                    let ec = run_end(v, c, Class::Word);
                    if ec > c && lit_at(v, ec, " to ") {
                        assert(at_ok(v@)(p as int));
                        return Some(p);
                    }
                }
            }
        }
        assert(!at_ok(v@)(p as int));
        if p == v.len() {
            assert(first_from(at_ok(v@), p + 1, v@.len() as int) is None);
            return None;
        }
        p = p + 1;
    }
}

/// The reading of an `IN N UNIT` request at `p`, the number scaled to
/// seconds by `scale`.
fn read_in(v: &Vec<char>, p: usize, unit: &str, scale: u64) -> (r: Option<SubCommand>)
    requires
        p + 4 + run_len(v@, p + 4, Class::Digit) + unit@.len() <= v@.len(),
        scale == 1 || scale == 60 || scale == 3600,
    ensures
        match in_seconds(in_digits(v@, p as int), scale as nat, in_what(v@, p as int, unit@)) {
            Reading::Invalid => r is None,
            g => r matches Some(x) && reads_as(x, g),
        },
{
    let n = v.len();
    assert(p + 4 <= n);
    let a = p + 4;
    let e = run_end(v, a, Class::Digit);
    let w = e + chars_of(unit).len();
    let we = line_end_exec(v, w);
    let what = string_of_range(v, w, we);
    match parse_u64(v, a, e) {
        Some(n) => {
            if scale == 1 {
                Some(SubCommand::RemindIn(RemindIn { seconds: n, what }))
            } else if scale == 60 {
                match n.checked_mul(60) {
                    Some(s) => Some(SubCommand::RemindIn(RemindIn { seconds: s, what })),
                    None => None,
                }
            } else {
                match n.checked_mul(60) {
                    Some(m) => match m.checked_mul(60) {
                        Some(s) => Some(SubCommand::RemindIn(RemindIn { seconds: s, what })),
                        None => None,
                    },
                    None => None,
                }
            }
        },
        None => None,
    }
}

impl SubCommand {
    /// Reads a reminder request from the message text `content`; `None`
    /// exactly on the requests on which the command stops (see
    /// `Reading::Invalid`).
    pub fn parse(content: &str) -> (r: Option<SubCommand>)
        ensures
            read_remind(content@) is Invalid <==> r is None,
            r matches Some(x) ==> reads_as(x, read_remind(content@)),
    {
        let cv = chars_of(content);
        let pat = chars_of("cc remind me");
        proof {
            reveal_strlit("cc remind me");
        }
        let body = replace_exec(&cv, &pat, "");
        assert(""@ =~= Seq::<char>::empty()) by {
            reveal_strlit("");
        }
        let v = chars_of(body.as_str());
        proof {
            reveal_strlit(" seconds to ");
            reveal_strlit(" minutes to ");
            reveal_strlit(" hours to ");
            reveal_strlit(" to ");
        }
        if let Some(p) = find_in(&v, " seconds to ") {
            read_in(&v, p, " seconds to ", 1)
        } else if let Some(p) = find_in(&v, " minutes to ") {
            read_in(&v, p, " minutes to ", 60)
        } else if let Some(p) = find_in(&v, " hours to ") {
            read_in(&v, p, " hours to ", 3600)
        } else if let Some(p) = find_at(&v) {
            let a = p + 4;
            let ea = run_end(&v, a, Class::Digit);
            let eb = run_end(&v, ea + 1, Class::Digit);
            let c = eb + 1;
            let ec = run_end(&v, c, Class::Word);
            let x = ec + 4;
            let xe = line_end_exec(&v, x);
            let time = string_of_range(&v, a, eb);
            let timezone = string_of_range(&v, c, ec);
            let what = string_of_range(&v, x, xe);
            Some(SubCommand::RemindAt(RemindAt { time, timezone, what }))
        } else {
            Some(SubCommand::Help)
        }
    }

    /// Reads a reminder request from the message text `content` (the
    /// conversion from a message).
    pub fn from_content(content: &str) -> (r: SubCommand)
        requires
            !(read_remind(content@) is Invalid),
        ensures
            reads_as(r, read_remind(content@)),
    {
        match SubCommand::parse(content) {
            Some(x) => x,
            None => SubCommand::Help,
        }
    }
}

} // verus!

verus! {

/// A span of time split into hours, minutes and seconds.
pub struct RemTime {
    pub hours: u64,
    pub minutes: u64,
    pub seconds: u64,
}

/// How a span of time reads in a reply: each non-zero part as
/// "N hours ", "N minutes ", "N seconds ", in that order.
pub open spec fn rem_time_text(h: nat, m: nat, s: nat) -> Seq<char> {
    (if h > 0 { decimal(h) + " hours "@ } else { Seq::empty() }) + (if m > 0 {
        decimal(m) + " minutes "@
    } else {
        Seq::empty()
    }) + (if s > 0 { decimal(s) + " seconds "@ } else { Seq::empty() })
}

impl RemTime {
    /// Splits `seconds` into whole hours, the minutes left, and the seconds
    /// left.
    pub fn from_seconds(seconds: u64) -> (r: Self)
        ensures
            r.hours == seconds / 3600,
            r.minutes == (seconds - r.hours * 3600) / 60,
            r.seconds == seconds - r.hours * 3600 - r.minutes * 60,
            r.hours * 3600 + r.minutes * 60 + r.seconds == seconds,
            r.minutes < 60,
            r.seconds < 60,
    {
        let hours = seconds / 3600;
        assert(hours * 3600 <= seconds && seconds - hours * 3600 < 3600) by (nonlinear_arith)
            requires
                hours == seconds / 3600,
        ;
        let minutes = (seconds - (hours * 3600)) / 60;
        assert(minutes * 60 <= seconds - hours * 3600 && seconds - hours * 3600 - minutes * 60
            < 60 && minutes < 60) by (nonlinear_arith)
            requires
                minutes == (seconds - hours * 3600) / 60,
                seconds - hours * 3600 < 3600,
                hours * 3600 <= seconds,
        ;
        let seconds = seconds - (hours * 3600) - (minutes * 60);
        RemTime { hours, minutes, seconds }
    }

    /// The span as it reads in a reply, e.g. "1 hours 2 minutes ".
    pub fn to_string(&self) -> (r: String)
        ensures
            r@ == rem_time_text(self.hours as nat, self.minutes as nat, self.seconds as nat),
    {
        let mut r = String::new();
        if self.hours > 0 {
            push_decimal(&mut r, self.hours);
            r.append(" hours ");
        }
        if self.minutes > 0 {
            push_decimal(&mut r, self.minutes);
            r.append(" minutes ");
        }
        if self.seconds > 0 {
            push_decimal(&mut r, self.seconds);
            r.append(" seconds ");
        }
        assert(r@ =~= rem_time_text(self.hours as nat, self.minutes as nat, self.seconds as nat));
        r
    }
}

} // verus!

verus! {

/// The command, with its trigger words.
pub struct RemindCommand {
    matches: Vec<&'static str>,
    _config: RemindConfig,
}

/// The help lines of the command.
pub open spec fn remind_help() -> Seq<Seq<char>> {
    seq![
        "   remind me in x [seconds|minutes|hours] to <what you should be reminded of> - Responds with a reminder"@,
        "       Example: cc remind me in 10 minutes to take a break"@,
        "       Example: cc remind me in 2 hours to pick up the kids"@,
        "   remind me at <time> <timezone> to <what you should be reminded of> - Responds with a reminder"@,
        "       Example: cc remind me at 11:40 GMT to start lunch"@,
    ]
}

impl HelpCommands for RemindCommand {
    open spec fn help_view() -> Seq<Seq<char>> {
        remind_help()
    }

    fn help() -> (r: Vec<&'static str>)
        ensures
            views(r@) == remind_help(),
    {
        let r = vec![
            "   remind me in x [seconds|minutes|hours] to <what you should be reminded of> - Responds with a reminder",
            "       Example: cc remind me in 10 minutes to take a break",
            "       Example: cc remind me in 2 hours to pick up the kids",
            "   remind me at <time> <timezone> to <what you should be reminded of> - Responds with a reminder",
            "       Example: cc remind me at 11:40 GMT to start lunch",
        ];
        assert(views(r@) =~= remind_help());
        r
    }
}

/// How long to wait before reminding.
#[derive(Clone, Copy, Debug, PartialEq, Eq)]
pub enum Wait {
    Seconds(u64),
    Millis(u64),
}

/// What the command does with a request.
pub enum RemindReply {
    /// Send this text to the author in private.
    Private(String),
    /// Send this text to the channel.
    Public(String),
    /// Send `reply` to the channel now, and `reminder` after `wait`.
    Schedule { reply: String, wait: Wait, reminder: String },
}

/// The reminder itself: `Hi <@ID>, you asked me to remind you to WHAT`.
pub open spec fn reminder_text(author: nat, what: Seq<char>) -> Seq<char> {
    "Hi "@ + mention(author) + ", you asked me to remind you to "@ + what
}

/// The answer to a reminder in some seconds:
/// `<@ID>, I will remind you in SPAN to WHAT`.
pub open spec fn remind_in_reply(author: nat, seconds: nat, what: Seq<char>) -> Seq<char> {
    let h = seconds / 3600;
    let m = ((seconds - h * 3600) / 60) as nat;
    let s = (seconds - h * 3600 - m * 60) as nat;
    mention(author) + ", I will remind you in "@ + rem_time_text(h, m, s) + "to "@ + what
}

/// The answer to a reminder at a time of day:
/// `<@ID>, I will remind you at TIME ZONE to WHAT`.
pub open spec fn remind_at_reply(author: nat, time: Seq<char>, zone: Seq<char>, what: Seq<
    char,
>) -> Seq<char> {
    mention(author) + ", I will remind you at "@ + time + " "@ + zone + " to "@ + what
}

/// The answer to a reminder at a time that has passed today.
pub open spec fn remind_passed_reply(author: nat, time: Seq<char>, zone: Seq<char>, what: Seq<
    char,
>) -> Seq<char> {
    "Hi "@ + mention(author) + ", you asked me to remind you at "@ + time + " "@ + zone
        + " to "@ + what + ", but that time has already passed"@
}

/// Nanoseconds from `now` until `at`.
pub open spec fn nanos_until(now: Instant, at: Instant) -> int {
    (at.secs - now.secs) * 1_000_000_000 + at.nanos - now.nanos
}

/// `a / b` rounded toward zero (`b > 0`), as chrono counts whole units of a
/// time span.
pub open spec fn div_toward_zero(a: int, b: int) -> int {
    if a >= 0 {
        a / b
    } else {
        -((-a) / b)
    }
}

/// Whether a reminder at `at` asked at `now` is too late: the span until
/// it is at least one whole second in the past.
pub open spec fn has_passed(now: Instant, at: Instant) -> bool {
    div_toward_zero(nanos_until(now, at), 1_000_000_000) < 0
}

/// How many milliseconds to wait, as a `u64` (a span shorter than a second
/// in the past wraps around, as `as u64` does).
pub open spec fn wait_millis(now: Instant, at: Instant) -> u64 {
    div_toward_zero(nanos_until(now, at), 1_000_000) as u64
}

/// What a reminder at a time of day amounts to, given the clock reading
/// `now` and the instant `at` that the time of day stands for.
pub open spec fn remind_at_outcome(
    author: nat,
    time: Seq<char>,
    zone: Seq<char>,
    what: Seq<char>,
    now: Instant,
    at: Instant,
    r: RemindReply,
) -> bool {
    if has_passed(now, at) {
        r matches RemindReply::Public(text) && text@ == remind_passed_reply(author, time, zone, what)
    } else {
        r matches RemindReply::Schedule { reply, wait, reminder } && reply@ == remind_at_reply(
            author,
            time,
            zone,
            what,
        ) && wait == Wait::Millis(wait_millis(now, at)) && reminder@ == reminder_text(author, what)
    }
}

/// The span that the answer to a reminder in some seconds shows splits
/// the whole wait: it reads `H hours M minutes S seconds ` (each part only
/// when it is not zero) for the hours, minutes and seconds that make up
/// exactly `seconds`, with fewer than 60 minutes and 60 seconds.
pub proof fn law_reply_span_splits_the_wait(author: nat, seconds: nat, what: Seq<char>)
    ensures
        exists|h: nat, m: nat, s: nat|
            #![trigger rem_time_text(h, m, s)]
            h * 3600 + m * 60 + s == seconds && m < 60 && s < 60 && remind_in_reply(
                author,
                seconds,
                what,
            ) == mention(author) + ", I will remind you in "@ + rem_time_text(h, m, s) + "to "@
                + what,
{
    let h = seconds / 3600;
    assert(h * 3600 <= seconds && seconds - h * 3600 < 3600) by (nonlinear_arith)
        requires
            h == seconds / 3600,
    ;
    let m = ((seconds - h * 3600) / 60) as nat;
    assert(m * 60 <= seconds - h * 3600 && seconds - h * 3600 - m * 60 < 60 && m < 60)
        by (nonlinear_arith)
        requires
            m == (seconds - h * 3600) / 60,
            seconds - h * 3600 < 3600,
            h * 3600 <= seconds,
    ;
    let s = (seconds - h * 3600 - m * 60) as nat;
    assert(h * 3600 + m * 60 + s == seconds);
    assert(remind_in_reply(author, seconds, what) == mention(author) + ", I will remind you in "@
        + rem_time_text(h, m, s) + "to "@ + what);
}

/// The instant `i` as a count of nanoseconds since 1970.
pub open spec fn total_nanos(i: Instant) -> int {
    i.secs * 1_000_000_000 + i.nanos
}

/// How a reminder at a time of day is timed: it is answered as passed
/// exactly when its instant `at` is a whole second or more before the
/// clock's reading `now`; otherwise, when `at` is not before `now`, it
/// waits the whole milliseconds from `now` to `at` (the number `w` with
/// `w` ms at most the span and `w + 1` ms more than it).
pub proof fn law_remind_timing(now: Instant, at: Instant)
    ensures
        has_passed(now, at) <==> total_nanos(at) - total_nanos(now) <= -1_000_000_000,
        0 <= total_nanos(at) - total_nanos(now) < 1_000_000 * (u64::MAX + 1) ==> ({
            let w = wait_millis(now, at) as int;
            w * 1_000_000 <= total_nanos(at) - total_nanos(now) < (w + 1) * 1_000_000
        }),
{
    let n = nanos_until(now, at);
    assert(n == total_nanos(at) - total_nanos(now));
    if 0 <= n && n < 1_000_000 * (u64::MAX + 1) {
        let q = n / 1_000_000;
        assert(0 <= q <= u64::MAX);
        assert(q * 1_000_000 <= n < (q + 1) * 1_000_000);
        assert(div_toward_zero(n, 1_000_000) == q);
        assert((q as u64) as int == q);
    }
}

/// Builds the reminder text.
fn reminder_exec(author: u64, what: &str) -> (r: String)
    ensures
        r@ == reminder_text(author as nat, what@),
{
    let mut r = String::new();
    r.append("Hi ");
    push_mention(&mut r, author);
    r.append(", you asked me to remind you to ");
    r.append(what);
    assert(r@ =~= reminder_text(author as nat, what@));
    r
}

/// Whether the reminder is too late, and how many milliseconds to wait.
pub fn schedule(now: Instant, at: Instant) -> (r: (bool, u64))
    ensures
        r.0 == has_passed(now, at),
        r.1 == wait_millis(now, at),
{
    let total: i128 = (at.secs as i128 - now.secs as i128) * 1_000_000_000i128 + at.nanos as i128
        - now.nanos as i128;
    assert(total == nanos_until(now, at));
    let secs: i128 = if total >= 0 {
        total / 1_000_000_000i128
    } else {
        -((-total) / 1_000_000_000i128)
    };
    let millis: i128 = if total >= 0 {
        total / 1_000_000i128
    } else {
        -((-total) / 1_000_000i128)
    };
    (secs < 0, millis as u64)
}

impl RemindCommand {
    /// What the router needs to know of the command: its help lines and
    /// its trigger words.
    pub fn entry(&self) -> (r: crate::commands::CommandEntry)
        ensures
            r.matches@ == self.trigger_words(),
            !r.mention_is,
            crate::text::views(r.help@) == remind_help(),
    {
        let help: Vec<&'static str> = <RemindCommand as HelpCommands>::help();
        proof {
            assert(crate::text::views(help@) =~= remind_help());
        }
        crate::commands::CommandEntry {
            help,
            matches: crate::commands::copy_words(&self.matches),
            mention_is: false,
        }
    }

    /// The command, triggered by requests that start with "remind me".
    pub fn new(config: RemindConfig) -> (r: RemindCommand)
        ensures
            views(r.trigger_words()) == seq!["remind me"@],
    {
        let r = RemindCommand { matches: vec!["remind me"], _config: config };
        assert(views(r.matches@) =~= seq!["remind me"@]);
        r
    }

    /// The words a request for this command starts with.
    pub closed spec fn trigger_words(&self) -> Seq<&'static str> {
        self.matches@
    }

    /// Whether a request is meant for this command.
    pub fn matches(&self, message: &str) -> (r: bool)
        ensures
            r == starts_with_any(self.trigger_words(), message@),
    {
        matches_any(&self.matches, message)
    }

    /// The text that explains the command.
    pub fn _help(&self) -> (r: String)
        ensures
            r@ == "Remind me Commands: \n"@ + join(remind_help(), "\n"@),
    {
        let mut r = String::new();
        r.append("Remind me Commands: \n");
        let lines = <RemindCommand as HelpCommands>::help();
        let body = join_strs(&lines, "\n");
        r.append(body.as_str());
        r
    }

    /// A reminder in some seconds: the answer now, and the reminder later.
    pub fn remind_in(&self, r_in: &RemindIn, author: u64) -> (r: RemindReply)
        ensures
            r matches RemindReply::Schedule { reply, wait, reminder } && reply@ == remind_in_reply(
                author as nat,
                r_in.seconds as nat,
                r_in.what@,
            ) && wait == Wait::Seconds(r_in.seconds) && reminder@ == reminder_text(
                author as nat,
                r_in.what@,
            ),
    {
        let reminder = reminder_exec(author, r_in.what.as_str());
        let span = RemTime::from_seconds(r_in.seconds);
        let mut reply = String::new();
        push_mention(&mut reply, author);
        reply.append(", I will remind you in ");
        let s = span.to_string();
        reply.append(s.as_str());
        reply.append("to ");
        reply.append(r_in.what.as_str());
        assert(reply@ =~= remind_in_reply(author as nat, r_in.seconds as nat, r_in.what@));
        RemindReply::Schedule { reply, wait: Wait::Seconds(r_in.seconds), reminder }
    }

    /// A reminder at a time of day, given the time of day's instant `at`
    /// and the clock reading `now`.
    pub fn remind_at_instant(&self, x: &RemindAt, author: u64, now: Instant, at: Instant) -> (r: RemindReply)
        ensures
            remind_at_outcome(author as nat, x.time@, x.timezone@, x.what@, now, at, r),
    {
        let (passed, millis) = schedule(now, at);
        if passed {
            let mut text = String::new();
            text.append("Hi ");
            push_mention(&mut text, author);
            text.append(", you asked me to remind you at ");
            text.append(x.time.as_str());
            text.append(" ");
            text.append(x.timezone.as_str());
            text.append(" to ");
            text.append(x.what.as_str());
            text.append(", but that time has already passed");
            assert(text@ =~= remind_passed_reply(author as nat, x.time@, x.timezone@, x.what@));
            RemindReply::Public(text)
        } else {
            let mut reply = String::new();
            push_mention(&mut reply, author);
            reply.append(", I will remind you at ");
            reply.append(x.time.as_str());
            reply.append(" ");
            reply.append(x.timezone.as_str());
            reply.append(" to ");
            reply.append(x.what.as_str());
            assert(reply@ =~= remind_at_reply(author as nat, x.time@, x.timezone@, x.what@));
            let reminder = reminder_exec(author, x.what.as_str());
            RemindReply::Schedule { reply, wait: Wait::Millis(millis), reminder }
        }
    }

    /// A reminder at a time of day: the clock is read once, the time of
    /// day is taken as today's in the zone the request names, and the
    /// answer depends on whether that time has passed; the error chrono
    /// gives when the time does not read, and the error `Clock` when the
    /// clock gives no instant chrono can show.
    pub fn remind_at(&self, x: &RemindAt, author: u64) -> (r: Result<RemindReply, TimeError>)
        ensures
            r matches Err(TimeError::Clock) || exists|now: Instant|
                #![trigger chrono_instant(now.secs, now.nanos)]
                chrono_instant(now.secs, now.nanos) && ({
                    let zone = zone_for(lowercase(x.timezone@));
                    match offset_time(today_at(now, zone, x.time@), stamp_format()) {
                        Some(at) => r matches Ok(reply) && remind_at_outcome(
                            author as nat,
                            x.time@,
                            x.timezone@,
                            x.what@,
                            now,
                            Instant { secs: at.0, nanos: at.1 },
                            reply,
                        ),
                        None => r matches Err(TimeError::Parse(_)),
                    }
                }),
    {
        match crate::time::utc_now() {
            Some(now) => {
                let r = self.remind_at_clock(x, author, now);
                assert(chrono_instant(now.secs, now.nanos));
                r
            },
            None => Err(TimeError::Clock),
        }
    }

    /// A reminder at a time of day when the clock reads the instant `now`:
    /// the time of day is taken as today's (as of `now`) in the zone the
    /// request names, and the answer depends on whether it has passed at
    /// `now`; the error chrono gives when the time does not read.
    pub fn remind_at_clock(&self, x: &RemindAt, author: u64, now: Instant) -> (r: Result<
        RemindReply,
        TimeError,
    >)
        requires
            chrono_instant(now.secs, now.nanos),
        ensures
            match offset_time(
                today_at(now, zone_for(lowercase(x.timezone@)), x.time@),
                stamp_format(),
            ) {
                Some(at) => r matches Ok(reply) && remind_at_outcome(
                    author as nat,
                    x.time@,
                    x.timezone@,
                    x.what@,
                    now,
                    Instant { secs: at.0, nanos: at.1 },
                    reply,
                ),
                None => r matches Err(TimeError::Parse(_)),
            },
    {
        let zone = TimeCommand::get_timezone(x.timezone.as_str());
        match time_today(now, zone, x.time.as_str()) {
            Ok(at) => Ok(self.remind_at_instant(x, author, now, at)),
            Err(e) => Err(e),
        }
    }

    /// What the command does with the message text `content` (a request on
    /// which the command stops is not admitted).
    pub fn respond(&self, content: &str, author: u64) -> (r: Result<RemindReply, TimeError>)
        requires
            !(read_remind(content@) is Invalid),
        ensures
            read_remind(content@) is Help ==> (r matches Ok(RemindReply::Private(text)) && text@
                == "Remind me Commands: \n"@ + join(remind_help(), "\n"@)),
            read_remind(content@) matches Reading::In(seconds, what) ==> (r matches Ok(
                RemindReply::Schedule { reply, wait, reminder },
            ) && seconds <= u64::MAX && reply@ == remind_in_reply(author as nat, seconds, what) && wait
                == Wait::Seconds(seconds as u64) && reminder@ == reminder_text(author as nat, what)),
            read_remind(content@) matches Reading::At(time, zone_name, what) ==> r matches Err(
                TimeError::Clock,
            ) || exists|now: Instant|
                #![trigger chrono_instant(now.secs, now.nanos)]
                chrono_instant(now.secs, now.nanos) && ({
                    let zone = zone_for(lowercase(zone_name));
                    match offset_time(today_at(now, zone, time), stamp_format()) {
                        Some(at) => r matches Ok(reply) && remind_at_outcome(
                            author as nat,
                            time,
                            zone_name,
                            what,
                            now,
                            Instant { secs: at.0, nanos: at.1 },
                            reply,
                        ),
                        None => r matches Err(TimeError::Parse(_)),
                    }
                }),
    {
        match SubCommand::from_content(content) {
            SubCommand::RemindAt(x) => self.remind_at(&x, author),
            SubCommand::RemindIn(x) => Ok(self.remind_in(&x, author)),
            SubCommand::Help => Ok(RemindReply::Private(self._help())),
        }
    }
}

} // verus!
