use chat_cats::remind::{
    schedule, RemTime, RemindAt, RemindCommand, RemindConfig, RemindIn, RemindReply, SubCommand, Wait,
};
use chat_cats::time::Instant;

fn remind_in(seconds: u64, what: &str) -> SubCommand {
    SubCommand::RemindIn(RemindIn { seconds, what: what.to_string() })
}

#[test]
fn reads_seconds_minutes_hours() {
    assert_eq!(
        SubCommand::parse("cc remind me in 10 seconds to stretch"),
        Some(remind_in(10, "stretch"))
    );
    assert_eq!(
        SubCommand::parse("cc remind me in 10 minutes to take a break"),
        Some(remind_in(600, "take a break"))
    );
    assert_eq!(
        SubCommand::parse("cc remind me in 2 hours to pick up the kids"),
        Some(remind_in(7200, "pick up the kids"))
    );
}

#[test]
fn subject_stops_at_line_break() {
    assert_eq!(
        SubCommand::parse("cc remind me in 5 seconds to eat\nand drink"),
        Some(remind_in(5, "eat"))
    );
}

#[test]
fn seconds_win_over_minutes() {
    assert_eq!(
        SubCommand::parse("cc remind me in 3 minutes to a in 4 seconds to b"),
        Some(remind_in(4, "b"))
    );
}

#[test]
fn reads_time_of_day() {
    assert_eq!(
        SubCommand::parse("cc remind me at 11:40 GMT to start lunch"),
        Some(SubCommand::RemindAt(RemindAt {
            time: "11:40".to_string(),
            timezone: "GMT".to_string(),
            what: "start lunch".to_string(),
        }))
    );
}

#[test]
fn anything_else_is_help() {
    assert_eq!(SubCommand::parse("cc remind me"), Some(SubCommand::Help));
    assert_eq!(SubCommand::parse("cc remind me in ten minutes to x"), Some(SubCommand::Help));
    assert_eq!(SubCommand::parse("cc remind me at 11 GMT to x"), Some(SubCommand::Help));
    assert_eq!(SubCommand::from_content("cc remind me please"), SubCommand::Help);
}

#[test]
fn numbers_that_do_not_fit_stop_the_command() {
    assert_eq!(SubCommand::parse("cc remind me in 18446744073709551616 seconds to x"), None);
    assert_eq!(SubCommand::parse("cc remind me in 307445734561825861 minutes to x"), None);
    assert_eq!(SubCommand::parse("cc remind me in 5124095576030432 hours to x"), None);
    // the largest that fit
    assert_eq!(
        SubCommand::parse("cc remind me in 18446744073709551615 seconds to x"),
        Some(remind_in(18446744073709551615, "x"))
    );
    assert_eq!(
        SubCommand::parse("cc remind me in 5124095576030431 hours to x"),
        Some(remind_in(5124095576030431 * 3600, "x"))
    );
}

#[test]
fn digits_other_than_ascii_stop_the_command() {
    // Arabic-Indic digits are decimal digits to the pattern, not to the number reader
    assert_eq!(SubCommand::parse("cc remind me in \u{661}\u{662} seconds to x"), None);
}

#[test]
fn span_splits_into_parts() {
    let t = RemTime::from_seconds(3725);
    assert_eq!((t.hours, t.minutes, t.seconds), (1, 2, 5));
    assert_eq!(t.to_string(), "1 hours 2 minutes 5 seconds ");
    let t = RemTime::from_seconds(600);
    assert_eq!((t.hours, t.minutes, t.seconds), (0, 10, 0));
    assert_eq!(t.to_string(), "10 minutes ");
    assert_eq!(RemTime::from_seconds(0).to_string(), "");
    let t = RemTime::from_seconds(u64::MAX);
    assert_eq!(t.hours * 3600 + t.minutes * 60 + t.seconds, u64::MAX);
}

#[test]
fn reminder_in_some_time() {
    let cmd = RemindCommand::new(RemindConfig {});
    match cmd.remind_in(&RemindIn { seconds: 90, what: "stretch".to_string() }, 42) {
        RemindReply::Schedule { reply, wait, reminder } => {
            assert_eq!(reply, "<@42>, I will remind you in 1 minutes 30 seconds to stretch");
            assert_eq!(wait, Wait::Seconds(90));
            assert_eq!(reminder, "Hi <@42>, you asked me to remind you to stretch");
        }
        _ => panic!("expected a schedule"),
    }
}

#[test]
fn respond_routes_requests() {
    let cmd = RemindCommand::new(RemindConfig {});
    match cmd.respond("cc remind me to dance", 7).unwrap() {
        RemindReply::Private(text) => {
            assert!(text.starts_with("Remind me Commands: \n   remind me in x [seconds|minutes|hours]"));
            assert!(text.ends_with("Example: cc remind me at 11:40 GMT to start lunch"));
        }
        _ => panic!("expected help"),
    }
    match cmd.respond("cc remind me in 1 hours to go", 7).unwrap() {
        RemindReply::Schedule { reply, wait, .. } => {
            assert_eq!(reply, "<@7>, I will remind you in 1 hours to go");
            assert_eq!(wait, Wait::Seconds(3600));
        }
        _ => panic!("expected a schedule"),
    }
}

#[test]
fn reminder_at_a_time_of_day() {
    let cmd = RemindCommand::new(RemindConfig {});
    let at = RemindAt { time: "10:00".to_string(), timezone: "utc".to_string(), what: "tea".to_string() };
    let now = Instant { secs: 1_000, nanos: 0 };
    match cmd.remind_at_instant(&at, 3, now, Instant { secs: 1_060, nanos: 0 }) {
        RemindReply::Schedule { reply, wait, reminder } => {
            assert_eq!(reply, "<@3>, I will remind you at 10:00 utc to tea");
            assert_eq!(wait, Wait::Millis(60_000));
            assert_eq!(reminder, "Hi <@3>, you asked me to remind you to tea");
        }
        _ => panic!("expected a schedule"),
    }
    match cmd.remind_at_instant(&at, 3, now, Instant { secs: 999, nanos: 0 }) {
        RemindReply::Public(text) => assert_eq!(
            text,
            "Hi <@3>, you asked me to remind you at 10:00 utc to tea, but that time has already passed"
        ),
        _ => panic!("expected the time to have passed"),
    }
}

#[test]
fn schedule_counts_whole_units_toward_zero() {
    let now = Instant { secs: 100, nanos: 500_000_000 };
    // half a second in the past: not a whole second, so not passed; the wait wraps
    assert_eq!(schedule(now, Instant { secs: 100, nanos: 0 }), (false, (-500i64) as u64));
    // one and a half seconds in the past
    assert_eq!(schedule(now, Instant { secs: 99, nanos: 0 }).0, true);
    // exactly one second in the past
    assert_eq!(schedule(Instant { secs: 100, nanos: 0 }, Instant { secs: 99, nanos: 0 }).0, true);
    // in the future
    assert_eq!(schedule(now, Instant { secs: 160, nanos: 0 }), (false, 59_500));
}

#[test]
fn reminder_at_today_in_a_zone() {
    let cmd = RemindCommand::new(RemindConfig {});
    let at = RemindAt { time: "99:99".to_string(), timezone: "est".to_string(), what: "x".to_string() };
    assert!(cmd.remind_at(&at, 1).is_err());
    let at = RemindAt { time: "12:00".to_string(), timezone: "UTC".to_string(), what: "x".to_string() };
    match cmd.remind_at(&at, 1).unwrap() {
        RemindReply::Public(text) => assert!(text.ends_with("but that time has already passed")),
        RemindReply::Schedule { reply, .. } => assert_eq!(reply, "<@1>, I will remind you at 12:00 UTC to x"),
        RemindReply::Private(_) => panic!("unexpected"),
    }
}
