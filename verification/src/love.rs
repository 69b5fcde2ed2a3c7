//! The `love you` command: answers with a loving message picked at random.
use vstd::prelude::*;
use crate::text::{mention, push_mention, views};
use crate::commands::{matches_any, starts_with_any, HelpCommands};
use crate::random::pick;

verus! {

/// The answers the command picks from.
#[derive(Clone, Debug)]
pub struct LoveConfig {
    pub responses: Vec<String>,
}

/// The command.
pub struct LoveCommand {
    matches: Vec<&'static str>,
    config: LoveConfig,
}

/// The help lines of the command.
pub open spec fn love_help() -> Seq<Seq<char>> {
    seq![
        "   love you - Responds with a random love message"@,
        "       Example: cc love you"@,
        "       Example: cc ❤️"@,
    ]
}

/// An answer addressed to a user: `<@ID>, ANSWER`.
pub open spec fn addressed(author: nat, answer: Seq<char>) -> Seq<char> {
    mention(author) + ", "@ + answer
}

/// Builds `addressed(author, answer)`.
pub fn address(author: u64, answer: &str) -> (r: String)
    ensures
        r@ == addressed(author as nat, answer@),
{
    let mut r = String::new();
    push_mention(&mut r, author);
    r.append(", ");
    r.append(answer);
    assert(r@ =~= addressed(author as nat, answer@));
    r
}

/// The help lines of the command.
pub fn love_help_lines() -> (r: Vec<&'static str>)
    ensures
        views(r@) == love_help(),
{
    let r = vec![
        "   love you - Responds with a random love message",
        "       Example: cc love you",
        "       Example: cc ❤️",
    ];
    assert(views(r@) =~= love_help());
    r
}

impl HelpCommands for LoveCommand {
    open spec fn help_view() -> Seq<Seq<char>> {
        love_help()
    }

    fn help() -> (r: Vec<&'static str>)
        ensures
            views(r@) == love_help(),
    {
        love_help_lines()
    }
}

impl LoveCommand {
    /// What the router needs to know of the command: its help lines and
    /// its trigger words.
    pub fn entry(&self) -> (r: crate::commands::CommandEntry)
        ensures
            r.matches@ == self.trigger_words(),
            !r.mention_is,
            crate::text::views(r.help@) == love_help(),
    {
        let help: Vec<&'static str> = love_help_lines();
        proof {
            assert(crate::text::views(help@) =~= love_help());
        }
        crate::commands::CommandEntry {
            help,
            matches: crate::commands::copy_words(&self.matches),
            mention_is: false,
        }
    }

    /// The command, triggered by "love you" or a heart.
    pub fn new(config: LoveConfig) -> (r: LoveCommand)
        ensures
            views(r.trigger_words()) == seq!["love you"@, "❤️"@],
            r.answers() == config.responses@,
    {
        let r = LoveCommand { matches: vec!["love you", "❤️"], config };
        assert(views(r.matches@) =~= seq!["love you"@, "❤️"@]);
        r
    }

    /// The words a request for this command starts with.
    pub closed spec fn trigger_words(&self) -> Seq<&'static str> {
        self.matches@
    }

    /// The answers the command picks from.
    pub closed spec fn answers(&self) -> Seq<String> {
        self.config.responses@
    }

    /// Whether a request is meant for this command.
    pub fn matches(&self, message: &str) -> (r: bool)
        ensures
            r == starts_with_any(self.trigger_words(), message@),
    {
        matches_any(&self.matches, message)
    }

    /// The answer to `author`: one of the answers, picked at random,
    /// addressed to them; `None` when there is no answer to pick (the
    /// command stops there).
    pub fn respond(&self, author: u64) -> (r: Option<String>)
        ensures
            r is None <==> self.answers().len() == 0,
            r matches Some(text) ==> exists|a: String|
                #![trigger addressed(author as nat, a@)]
                self.answers().contains(a) && text@ == addressed(author as nat, a@),
    {
        if self.config.responses.len() == 0 {
            return None;
        }
        let a = pick(&self.config.responses);
        Some(address(author, a.as_str()))
    }
}

} // verus!
