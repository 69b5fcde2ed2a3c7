use chat_cats::slap::{
    candidates, compose_slap, settle_slap, SlapCommand, SlapConfig, SubCommand,
};
use chat_cats::storage::{total_or_zero, Whois};

fn config(result: &str) -> SlapConfig {
    SlapConfig {
        actions: vec!["slaps".to_string()],
        objects: vec!["a trout".to_string()],
        body_parts: vec!["across the face".to_string()],
        results: vec![result.to_string()],
    }
}

#[test]
fn reads_kinds_of_request() {
    assert_eq!(SubCommand::parse("cc slap help"), Some(SubCommand::Help));
    assert_eq!(SubCommand::parse("cc slap stats"), Some(SubCommand::Stats));
    assert_eq!(SubCommand::parse("cc slap leaderboard"), Some(SubCommand::Leaderboard));
    assert_eq!(SubCommand::parse("cc slap top now"), Some(SubCommand::Top));
    assert_eq!(SubCommand::parse("cc slap   random"), Some(SubCommand::Random));
}

#[test]
fn reads_victim() {
    assert_eq!(SubCommand::parse("cc slap <@123>"), Some(SubCommand::Slap("<@123>".to_string())));
    assert_eq!(SubCommand::parse("cc slap x<@42>y"), Some(SubCommand::Slap("<@42>".to_string())));
    assert_eq!(SubCommand::parse("cc slap <@!42>"), Some(SubCommand::Help));
    assert_eq!(SubCommand::parse("cc slap someone"), Some(SubCommand::Help));
}

#[test]
fn no_word_stops_the_command() {
    assert_eq!(SubCommand::parse("cc slap"), None);
    assert_eq!(SubCommand::parse("cc slap   "), None);
}

#[test]
fn names_of_kinds() {
    let names: Vec<&str> = SubCommand::iter().into_iter().map(|k| k.into()).collect();
    assert_eq!(names, vec!["slap help", "slap stats", "slap leaderboard", "slap top", "slap random", "slap"]);
    let cmd = SlapCommand::new(config("ok"));
    assert!(cmd.matches("slap leaderboard"));
    assert!(cmd.matches("slaps"));
    assert!(!cmd.matches("hug"));
}

#[test]
fn slap_message() {
    let text = compose_slap(1, "<@2>", "slaps", "a trout", "across the face", "<@> cries");
    assert_eq!(text, "<@1> slaps <@2> with a trout across the face and <@2> cries");
}

#[test]
fn marked_slap_is_not_counted() {
    let out = settle_slap(1, "<@2>", "<@1> misses <@2>!!! badly".to_string());
    assert_eq!(out.text, "<@1> misses <@2> badly");
    assert_eq!(out.record, None);
    let out = settle_slap(1, "<@2>", "<@1> hits <@2>".to_string());
    assert_eq!(out.text, "<@1> hits <@2>");
    assert_eq!(out.record, Some((1, 2)));
}

#[test]
fn slap_with_configured_words() {
    let cmd = SlapCommand::new(config("<@> falls over"));
    let out = cmd.slap("<@77>", 5).unwrap();
    assert_eq!(out.text, "<@5> slaps <@77> with a trout across the face and <@77> falls over");
    assert_eq!(out.record, Some((5, 77)));
    let cmd = SlapCommand::new(config("nothing happens!!!"));
    let out = cmd.slap("<@77>", 5).unwrap();
    assert_eq!(out.text, "<@5> slaps <@77> with a trout across the face and nothing happens");
    assert_eq!(out.record, None);
}

#[test]
fn slap_that_cannot_be_counted_stops() {
    let cmd = SlapCommand::new(config("ouch"));
    assert!(cmd.slap("<@99999999999999999999>", 5).is_none());
    let mut empty = config("ouch");
    empty.objects.clear();
    assert!(SlapCommand::new(empty).slap("<@1>", 5).is_none());
}

#[test]
fn candidates_are_sorted_humans_once() {
    let messages = vec![(5, false), (3, false), (9, true), (5, false), (1, false), (3, false)];
    assert_eq!(candidates(&messages), vec![1, 3, 5]);
    assert_eq!(candidates(&vec![(9, true)]), Vec::<u64>::new());
}

#[test]
fn random_victim() {
    let cmd = SlapCommand::new(config("ok"));
    assert!(cmd.random(&vec![(9, true)], 1).is_none());
    let out = cmd.random(&vec![(4, false), (9, true)], 1).unwrap();
    assert_eq!(out.text, "<@1> slaps <@4> with a trout across the face and ok");
    assert_eq!(out.record, Some((1, 4)));
}

#[test]
fn help_stats_and_board() {
    let cmd = SlapCommand::new(config("ok"));
    assert_eq!(cmd.help(), "Usage: slap <oponent>");
    assert_eq!(cmd.stats(3, 10, -2), "<@3> has slapped 10 people, and have been slapped -2 times");
    let board = cmd.leaderboard(
        &vec![("ann".to_string(), 5), ("bob".to_string(), 2)],
        &vec![("cid".to_string(), 7)],
    );
    assert_eq!(
        board,
        "```Top 3 Slappers:\n\n  ann with 5 slaps\n  bob with 2 slaps \n\nTop 3 Slapped:\n\n  cid with 7 slaps\n\n```"
    );
    assert_eq!(cmd.leaderboard(&vec![], &vec![]), "```Top 3 Slappers:\n\n \n\nTop 3 Slapped:\n\n\n\n```");
}

#[test]
fn names_are_cached() {
    let mut cmd = SlapCommand::new(config("ok"));
    assert_eq!(cmd.cached_name(42), None);
    cmd.remember_name(42, "ann".to_string());
    assert_eq!(cmd.cached_name(42), Some("ann".to_string()));
    // every name is stored in the first slot
    cmd.remember_name(43, "bob".to_string());
    assert_eq!(cmd.cached_name(42), None);
    assert_eq!(cmd.cached_name(43), Some("bob".to_string()));
    // unused slots hold the default key 0 and an empty name
    assert_eq!(cmd.cached_name(0), Some(String::new()));
}

#[test]
fn stored_values() {
    assert_eq!(total_or_zero(Some(12)), 12);
    assert_eq!(total_or_zero(None), 0);
    let w = Whois::or_unknown(8, None);
    assert_eq!((w.target, w.message.as_str()), (8, "No whois message set"));
    let w = Whois::or_unknown(8, Some(Whois { target: 8, message: "a cat".to_string() }));
    assert_eq!(w.message, "a cat");
}

#[test]
fn victim_id_is_read_as_a_signed_number() {
    let cmd = SlapCommand::new(config("ok"));
    assert_eq!(cmd.slap("<@-5>", 1).unwrap().record, Some((1, -5)));
    assert_eq!(cmd.slap("<@+7>", 1).unwrap().record, Some((1, 7)));
    assert_eq!(cmd.slap("xx9>", 1).unwrap().record, Some((1, 9)));
    assert_eq!(
        cmd.slap("<@-9223372036854775808>", 1).unwrap().record,
        Some((1, i64::MIN))
    );
    assert!(cmd.slap("<@9223372036854775808>", 1).is_none());
    assert!(cmd.slap("<@>", 1).is_none());
    assert!(cmd.slap("ab", 1).is_none());
    // a two-byte first character puts the cut after it
    assert_eq!(cmd.slap("é5>", 1).unwrap().record, Some((1, 5)));
    // a cut inside a character stops the command
    assert!(cmd.slap("aé5>", 1).is_none());
}

#[test]
fn marked_slap_needs_no_victim_id() {
    let cmd = SlapCommand::new(config("no luck!!!"));
    let out = cmd.slap("nobody", 2).unwrap();
    assert_eq!(out.text, "<@2> slaps nobody with a trout across the face and no luck");
    assert_eq!(out.record, None);
}

#[test]
fn sent_slap_never_shows_the_marker() {
    let out = settle_slap(1, "<@2>", "!!!!!!!x!!!!".to_string());
    assert_eq!(out.text, "!x!");
    assert!(!out.text.contains("!!!"));
    assert_eq!(out.record, None);
    let out = settle_slap(1, "<@2>", "a!!!!b".to_string());
    assert_eq!(out.text, "a!b");
}
