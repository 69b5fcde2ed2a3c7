use chat_cats::commands::{CommandEntry, Commands, Route};
use chat_cats::hug::{HugCommand, HugConfig};
use chat_cats::love::{LoveCommand, LoveConfig};
use chat_cats::remind::{RemindCommand, RemindConfig};
use chat_cats::slap::{SlapCommand, SlapConfig};
use chat_cats::stats::StatsCommand;
use chat_cats::time::{TimeCommand, TimeConfig};
use chat_cats::whois::WhoIsCommand;

fn words(v: &[&str]) -> Vec<String> {
    v.iter().map(|s| s.to_string()).collect()
}

fn bot() -> Commands {
    let love = LoveCommand::new(LoveConfig { responses: words(&["I love you too"]) });
    let slap = SlapCommand::new(SlapConfig {
        actions: words(&["slaps"]),
        objects: words(&["a trout"]),
        body_parts: words(&["in the face"]),
        results: words(&["it hurts"]),
    });
    let hug = HugCommand::new(HugConfig { responses: words(&["big hug"]) });
    let remind = RemindCommand::new(RemindConfig {});
    let time = TimeCommand::new(TimeConfig {});
    let stats = StatsCommand::new(());
    let mut commands = Commands::new();
    commands
        .add_command(love.entry())
        .add_command(slap.entry())
        .add_command(hug.entry())
        .add_command(remind.entry())
        .add_command(time.entry())
        .add_command(stats.entry());
    commands
}

fn run(content: &str) -> Vec<usize> {
    match bot().handle(content) {
        Route::Run(ids) => ids,
        other => panic!("expected commands to run, got {:?}", other),
    }
}

#[test]
fn message_without_name_is_ignored() {
    assert!(matches!(bot().handle("love you"), Route::Ignore));
    assert!(matches!(bot().handle(""), Route::Ignore));
    assert!(matches!(bot().handle("c c love you"), Route::Ignore));
}

#[test]
fn love_request_goes_to_love() {
    assert_eq!(run("cc love you"), vec![0]);
    assert_eq!(run("CC love you"), vec![0]);
    assert_eq!(run("  chat-cats   love you  "), vec![0]);
    assert_eq!(run("cc ❤️"), vec![0]);
}

#[test]
fn name_matching_ignores_case_the_regex_way() {
    // the long s (U+017F) folds to 's', the Kelvin sign does not matter here
    assert_eq!(run("chat-cat\u{17f} hug <@1>"), vec![2]);
    assert_eq!(run("CHAT-CATS time est"), vec![4]);
}

#[test]
fn only_the_first_mention_of_the_name_is_cut() {
    // "cc" inside the request stays
    assert_eq!(run("cc slap cc"), vec![1]);
    // the request is what is left around the name, trimmed
    assert_eq!(run("hey cc hug <@5>"), Vec::<usize>::new());
    assert_eq!(run("hug <@5> cc"), vec![2]);
}

#[test]
fn slaps_request_goes_to_slap_and_stats() {
    assert_eq!(run("cc slaps"), vec![1, 5]);
    assert_eq!(run("cc stats"), vec![5]);
}

#[test]
fn unknown_request_runs_nothing() {
    assert_eq!(run("cc dance"), Vec::<usize>::new());
    assert_eq!(run("cc"), Vec::<usize>::new());
}

#[test]
fn help_request_lists_all_commands() {
    for content in ["cc help", "CC HELP", "cc  commands ", "chat-cats what can you do", "cc What Can You Do"] {
        match bot().handle(content) {
            Route::Help(text) => {
                assert!(text.starts_with("```\nI can do the following commands:\n   help - Responds with this message\n   love you - Responds with a random love message\n"));
                assert!(text.ends_with("       Example: cc time est 11:40 in uk\n```"));
                assert!(text.contains("   slap help - Responds with a list of slap commands"));
                assert!(text.contains("   remind me at <time> <timezone> to <what you should be reminded of> - Responds with a reminder"));
            }
            other => panic!("expected help for {:?}, got {:?}", content, other),
        }
    }
}

#[test]
fn help_with_more_words_is_not_help() {
    assert_eq!(run("cc help me"), Vec::<usize>::new());
}

#[test]
fn help_text_of_router_without_commands() {
    let commands = Commands::new();
    match commands.handle("cc help") {
        Route::Help(text) => assert_eq!(
            text,
            "```\nI can do the following commands:\n   help - Responds with this message\n```"
        ),
        other => panic!("{:?}", other),
    }
}

#[test]
fn added_command_comes_after_earlier_ones() {
    let mut commands = Commands::new();
    commands.add_command(CommandEntry { help: vec!["a"], matches: vec!["slap"], mention_is: false });
    commands.add_command(CommandEntry { help: vec!["b"], matches: vec!["sl"], mention_is: false });
    match commands.handle("cc slap x") {
        Route::Run(ids) => assert_eq!(ids, vec![0, 1]),
        other => panic!("{:?}", other),
    }
    match commands.handle("cc help") {
        Route::Help(text) => assert!(text.ends_with("message\na\nb\n```")),
        other => panic!("{:?}", other),
    }
}

#[test]
fn mention_is_requests_reach_the_command_that_takes_them() {
    let mut commands = bot();
    commands.add_command(WhoIsCommand::new(()).entry());
    let route = |c: &str| match commands.handle(c) {
        Route::Run(ids) => ids,
        other => panic!("expected commands to run, got {:?}", other),
    };
    assert_eq!(route("cc <@123> is a cool bot"), vec![6]);
    assert_eq!(route("cc who is <@123>"), vec![6]);
    assert_eq!(route("cc <@x> is a cool bot"), Vec::<usize>::new());
}
