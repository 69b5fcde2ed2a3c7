use chat_cats::definitions::{DefinitionsCommand, DefinitionsConfig};
use chat_cats::help::{HelpCommand, HelpConfig};
use chat_cats::hug::{HugCommand, HugConfig};
use chat_cats::love::{address, LoveCommand, LoveConfig};
use chat_cats::profanity::{pattern_of, screen, ProfanityConfig};
use chat_cats::uwu::{UwuCommand, UwuConfig};
use chat_cats::whois::{lookup_reply, not_understood_reply, save_reply, WhoIsCommand, WhoIsRequest};

fn words(v: &[&str]) -> Vec<String> {
    v.iter().map(|s| s.to_string()).collect()
}

#[test]
fn love_answers() {
    let cmd = LoveCommand::new(LoveConfig { responses: words(&["I love you too"]) });
    assert_eq!(cmd.respond(12).unwrap(), "<@12>, I love you too");
    assert!(cmd.matches("love you so much"));
    assert!(cmd.matches("❤️"));
    assert!(LoveCommand::new(LoveConfig { responses: vec![] }).respond(1).is_none());
    assert_eq!(address(0, ""), "<@0>, ");
}

#[test]
fn uwu_answers() {
    let cmd = UwuCommand::new(UwuConfig { responses: words(&["owo"]) });
    assert_eq!(cmd.respond(u64::MAX).unwrap(), "<@18446744073709551615>, owo");
    assert!(cmd.matches("uwu"));
}

#[test]
fn hug_answers() {
    let cmd = HugCommand::new(HugConfig { responses: words(&["warm hug"]) });
    assert_eq!(cmd.respond("cc hug <@55> please", 1).unwrap(), "<@1> gives <@55> a warm hug");
    assert_eq!(cmd.respond("cc hug everyone", 1).unwrap(), "No target for the hug was specified");
    // the first mention counts, wherever it stands
    assert_eq!(cmd.respond("<@7> cc hug <@8>", 1).unwrap(), "<@1> gives <@7> a warm hug");
    // digits of any script count as digits of a mention
    assert_eq!(
        cmd.respond("cc hug <@\u{661}\u{662}>", 1).unwrap(),
        "<@1> gives <@\u{661}\u{662}> a warm hug"
    );
    let none = HugCommand::new(HugConfig { responses: vec![] });
    assert!(none.respond("cc hug <@55>", 1).is_none());
    assert_eq!(none.respond("cc hug", 1).unwrap(), "No target for the hug was specified");
}

#[test]
fn definitions_and_help_answers() {
    let cmd = DefinitionsCommand::new(DefinitionsConfig { response: words(&["a", "b"]) });
    assert_eq!(cmd.respond(), "a\nb");
    assert!(cmd.matches("abv"));
    assert!(cmd.matches("explain this"));
    let cmd = HelpCommand::new(HelpConfig { response: words(&["one"]) });
    assert_eq!(cmd.respond(), "one");
    assert!(cmd.matches("what can you do"));
}

#[test]
fn whois_reads_lookups_and_saves() {
    let cmd = WhoIsCommand::new(());
    assert_eq!(cmd.respond("cc who is <@123>"), Some(WhoIsRequest::Lookup(123)));
    assert_eq!(cmd.respond("cc who is my friend <@7>!"), Some(WhoIsRequest::Lookup(7)));
    assert_eq!(
        cmd.respond("cc <@123> is a cool bot"),
        Some(WhoIsRequest::Save(123, "a cool bot".to_string()))
    );
    assert_eq!(
        cmd.respond("cc <@5> is nice and is kind"),
        Some(WhoIsRequest::Save(5, "nice and is kind".to_string()))
    );
    assert_eq!(cmd.respond("cc who is bob"), Some(WhoIsRequest::NotUnderstood));
    assert_eq!(cmd.respond("cc bob is a cat"), Some(WhoIsRequest::NotUnderstood));
    assert_eq!(cmd.respond("hello"), Some(WhoIsRequest::NotUnderstood));
    // a mention after a line break is not part of the request
    assert_eq!(cmd.respond("cc who is\n<@12>"), Some(WhoIsRequest::NotUnderstood));
    // an id that does not fit in an i64 stops the command
    assert_eq!(cmd.respond("cc who is <@99999999999999999999>"), None);
}

#[test]
fn whois_replies() {
    assert_eq!(lookup_reply(123, Some("a cool bot".to_string())), "<@123> is a cool bot ");
    assert_eq!(lookup_reply(123, None), "sorry i do not know <@123> ");
    assert_eq!(save_reply(123, true), "i now know <@123> ");
    assert_eq!(save_reply(123, false), "sorry i could not save <@123> ");
    assert_eq!(not_understood_reply(), "Sorry i do not understand that command");
}

#[test]
fn whois_triggers() {
    let cmd = WhoIsCommand::new(());
    assert!(cmd.matches("who is bob"));
    assert!(cmd.matches("<@123> is a cool bot"));
    assert!(!cmd.matches("<@abc> is a cool bot"));
    assert!(!cmd.matches("<@123>is a cool bot"));
    assert!(!cmd.matches("hello <@123> is a cool bot"));
    assert!(cmd.entry().mention_is);
}

fn filter_config(bad: &[&str], reps: &[&str]) -> ProfanityConfig {
    ProfanityConfig { bad_words: words(bad), replacements: words(reps) }
}

#[test]
fn profanity_pattern() {
    assert_eq!(pattern_of(&words(&["darn", "heck"])), "(?i)(darn|heck)");
    assert_eq!(pattern_of(&vec![]), "(?i)()");
}

#[test]
fn profanity_is_replaced() {
    let config = filter_config(&["darn", "dang"], &["gosh", "never picked"]);
    assert_eq!(
        screen("Darn it, DANG it", 4, &config),
        Some(Some("I am sure <@4> meant to say: gosh it, gosh it".to_string()))
    );
    assert_eq!(screen("all fine", 4, &config), Some(None));
}

#[test]
fn profanity_filter_that_cannot_run() {
    assert_eq!(screen("darn", 4, &filter_config(&["darn"], &["only one"])), None);
    assert_eq!(screen("darn", 4, &filter_config(&["(darn"], &["a", "b"])), None);
}
