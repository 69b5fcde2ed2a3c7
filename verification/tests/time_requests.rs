use chat_cats::time::{timezone_for, Instant, TimeCommand, TimeConfig, TimeError, TimeRequest};

#[test]
fn abbreviations_name_zones() {
    assert_eq!(TimeCommand::get_timezone("utc"), "UTC");
    assert_eq!(TimeCommand::get_timezone("EST"), "America/New_York");
    assert_eq!(TimeCommand::get_timezone("Cst"), "America/Chicago");
    assert_eq!(TimeCommand::get_timezone("mst"), "America/Denver");
    assert_eq!(TimeCommand::get_timezone("PST"), "America/Los_Angeles");
    assert_eq!(TimeCommand::get_timezone("sast"), "Africa/Johannesburg");
    assert_eq!(TimeCommand::get_timezone("UK"), "Europe/London");
}

#[test]
fn unknown_abbreviation_is_utc() {
    assert_eq!(TimeCommand::get_timezone("gmt"), "UTC");
    assert_eq!(TimeCommand::get_timezone(""), "UTC");
    assert_eq!(timezone_for("EST"), "UTC");
}

#[test]
fn lowering_case_follows_unicode() {
    // the Kelvin sign lowers to an ASCII k
    assert_eq!(TimeCommand::get_timezone("u\u{212a}"), "Europe/London");
}

#[test]
fn requests_are_told_apart() {
    assert!(matches!(TimeCommand::request("cc time est"), TimeRequest::TimeAt));
    assert!(matches!(TimeCommand::request("cc time est 11:40 in uk"), TimeRequest::Convert));
    assert!(matches!(TimeCommand::request("cc time sast 1:05 in est"), TimeRequest::Convert));
    assert!(matches!(TimeCommand::request("cc time"), TimeRequest::Help));
    assert!(matches!(TimeCommand::request("cc time est please"), TimeRequest::Help));
    assert!(matches!(TimeCommand::request("cc time est 111:40 in uk"), TimeRequest::Help));
}

#[test]
fn zone_of_request() {
    assert_eq!(TimeCommand::zone_abbreviation("cc time est"), "est");
    assert_eq!(TimeCommand::zone_abbreviation("cc time"), "utc");
    // the first request counts
    assert_eq!(TimeCommand::zone_abbreviation("cc time est cc time pst"), "est");
}

#[test]
fn parts_of_conversion() {
    assert_eq!(
        TimeCommand::convert_parts("cc time est 11:40 in uk"),
        ("est".to_string(), "11:40".to_string(), "uk".to_string())
    );
    assert_eq!(
        TimeCommand::convert_parts("cc time sast 9:05 in pst later"),
        ("sast".to_string(), "9:05".to_string(), "pst".to_string())
    );
    assert_eq!(
        TimeCommand::convert_parts("nothing here"),
        ("utc".to_string(), "00:00".to_string(), "utc".to_string())
    );
}

#[test]
fn help_text() {
    let cmd = TimeCommand::new(TimeConfig {});
    let text = cmd._help();
    assert!(text.starts_with("Time Commands: \n   time <timezone> - Responds with the time at the specified timezone\n"));
    assert!(text.ends_with("       Example: cc time est 11:40 in uk"));
    assert_eq!(cmd.respond("cc time", 1).unwrap(), text);
}

#[test]
fn current_time_reply() {
    let cmd = TimeCommand::new(TimeConfig {});
    let text = cmd.time_at("cc time utc", 9).unwrap();
    assert!(text.starts_with("<@9>, the time is "));
    assert!(text.ends_with(" UTC"));
    assert_eq!(text.len(), "<@9>, the time is ".len() + "00:00:00 UTC".len());
}

#[test]
fn conversion_reply() {
    let cmd = TimeCommand::new(TimeConfig {});
    let text = cmd.convert_time("cc time utc 11:40 in utc", 9).unwrap();
    assert_eq!(text, "<@9>, 11:40:00 UTC is 11:40:00 UTC");
    let text = cmd.convert_time("cc time sast 12:00 in utc", 9).unwrap();
    assert_eq!(text, "<@9>, 12:00:00 SAST is 10:00:00 UTC");
}

#[test]
fn unreadable_time_is_an_error() {
    let cmd = TimeCommand::new(TimeConfig {});
    assert!(cmd.convert_time("cc time utc 99:99 in est", 9).is_err());
    assert!(cmd.respond("cc time utc 24:00 in est", 9).is_err());
}

// 2024-01-15 08:00:00 UTC
fn morning() -> Instant {
    Instant { secs: 1705305600, nanos: 0 }
}

#[test]
fn current_time_at_a_given_instant() {
    let cmd = TimeCommand::new(TimeConfig {});
    assert_eq!(cmd.time_at_instant("cc time utc", 9, morning()), "<@9>, the time is 08:00:00 UTC");
    assert_eq!(cmd.time_at_instant("cc time sast", 9, morning()), "<@9>, the time is 10:00:00 SAST");
    assert_eq!(cmd.time_at_instant("cc time EST", 9, morning()), "<@9>, the time is 03:00:00 EST");
}

#[test]
fn conversion_at_a_given_instant() {
    let cmd = TimeCommand::new(TimeConfig {});
    assert_eq!(
        cmd.convert_at("cc time sast 11:40 in est", 42, morning()).unwrap(),
        "<@42>, 11:40:00 SAST is 04:40:00 EST"
    );
    assert_eq!(
        cmd.convert_at("cc time uk 9:05 in utc", 42, morning()).unwrap(),
        "<@42>, 09:05:00 GMT is 09:05:00 UTC"
    );
    assert!(matches!(
        cmd.convert_at("cc time sast 99:99 in est", 42, morning()),
        Err(TimeError::Parse(_))
    ));
}
