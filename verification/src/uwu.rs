//! The `uwu` command: answers with a message picked at random.
use vstd::prelude::*;
use crate::text::views;
use crate::commands::{matches_any, starts_with_any, HelpCommands};
use crate::love::{address, addressed};
use crate::random::pick;

verus! {

/// The answers the command picks from.
#[derive(Clone, Debug)]
pub struct UwuConfig {
    pub responses: Vec<String>,
}

/// The command.
pub struct UwuCommand {
    matches: Vec<&'static str>,
    config: UwuConfig,
}

/// The help lines of the command.
pub open spec fn uwu_help() -> Seq<Seq<char>> {
    seq!["   uwu - Responds with a random uwu message"@, "       Example: cc uwu"@]
}

/// The help lines of the command.
pub fn uwu_help_lines() -> (r: Vec<&'static str>)
    ensures
        views(r@) == uwu_help(),
{
    let r = vec!["   uwu - Responds with a random uwu message", "       Example: cc uwu"];
    assert(views(r@) =~= uwu_help());
    r
}

impl HelpCommands for UwuCommand {
    open spec fn help_view() -> Seq<Seq<char>> {
        uwu_help()
    }

    fn help() -> (r: Vec<&'static str>)
        ensures
            views(r@) == uwu_help(),
    {
        uwu_help_lines()
    }
}

impl UwuCommand {
    /// What the router needs to know of the command: its help lines and
    /// its trigger words.
    pub fn entry(&self) -> (r: crate::commands::CommandEntry)
        ensures
            r.matches@ == self.trigger_words(),
            !r.mention_is,
            crate::text::views(r.help@) == uwu_help(),
    {
        let help: Vec<&'static str> = uwu_help_lines();
        proof {
            assert(crate::text::views(help@) =~= uwu_help());
        }
        crate::commands::CommandEntry {
            help,
            matches: crate::commands::copy_words(&self.matches),
            mention_is: false,
        }
    }

    /// The command, triggered by "uwu".
    pub fn new(config: UwuConfig) -> (r: UwuCommand)
        ensures
            views(r.trigger_words()) == seq!["uwu"@],
            r.answers() == config.responses@,
    {
        let r = UwuCommand { matches: vec!["uwu"], config };
        assert(views(r.matches@) =~= seq!["uwu"@]);
        r
    }

    /// The words a request for this command starts with.
    pub closed spec fn trigger_words(&self) -> Seq<&'static str> {
        self.matches@
    }

    /// The answers the command picks from.
    pub closed spec fn answers(&self) -> Seq<String> {
        self.config.responses@
    }

    /// Whether a request is meant for this command.
    pub fn matches(&self, message: &str) -> (r: bool)
        ensures
            r == starts_with_any(self.trigger_words(), message@),
    {
        matches_any(&self.matches, message)
    }

    /// The answer to `author`: one of the answers, picked at random,
    /// addressed to them; `None` when there is no answer to pick (the
    /// command stops there).
    pub fn respond(&self, author: u64) -> (r: Option<String>)
        ensures
            r is None <==> self.answers().len() == 0,
            r matches Some(text) ==> exists|a: String|
                #![trigger addressed(author as nat, a@)]
                self.answers().contains(a) && text@ == addressed(author as nat, a@),
    {
        if self.config.responses.len() == 0 {
            return None;
        }
        let a = pick(&self.config.responses);
        Some(address(author, a.as_str()))
    }
}

} // verus!
