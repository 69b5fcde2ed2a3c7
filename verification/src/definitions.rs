//! The `definitions` command: answers with the configured lines.
use vstd::prelude::*;
use crate::text::{join, join_strings, string_views, views};
use crate::commands::{matches_any, starts_with_any, HelpCommands};

verus! {

/// The lines of the answer.
#[derive(Clone, Debug)]
pub struct DefinitionsConfig {
    pub response: Vec<String>,
}

/// The command.
pub struct DefinitionsCommand {
    matches: Vec<&'static str>,
    config: DefinitionsConfig,
}

/// The help lines of the command.
pub open spec fn definitions_help() -> Seq<Seq<char>> {
    seq![
        "   Definitions - Responds with a Definitions message"@,
        "       Example: cc definitions"@,
        "       Alias: cc explain, cc abv"@,
    ]
}

/// The help lines of the command.
pub fn definitions_help_lines() -> (r: Vec<&'static str>)
    ensures
        views(r@) == definitions_help(),
{
    let r = vec![
        "   Definitions - Responds with a Definitions message",
        "       Example: cc definitions",
        "       Alias: cc explain, cc abv",
    ];
    assert(views(r@) =~= definitions_help());
    r
}

impl HelpCommands for DefinitionsCommand {
    open spec fn help_view() -> Seq<Seq<char>> {
        definitions_help()
    }

    fn help() -> (r: Vec<&'static str>)
        ensures
            views(r@) == definitions_help(),
    {
        definitions_help_lines()
    }
}

impl DefinitionsCommand {
    /// What the router needs to know of the command: its help lines and
    /// its trigger words.
    pub fn entry(&self) -> (r: crate::commands::CommandEntry)
        ensures
            r.matches@ == self.trigger_words(),
            !r.mention_is,
            crate::text::views(r.help@) == definitions_help(),
    {
        let help: Vec<&'static str> = definitions_help_lines();
        proof {
            assert(crate::text::views(help@) =~= definitions_help());
        }
        crate::commands::CommandEntry {
            help,
            matches: crate::commands::copy_words(&self.matches),
            mention_is: false,
        }
    }

    /// The command, triggered by "definitions", "abv" or "explain".
    pub fn new(config: DefinitionsConfig) -> (r: DefinitionsCommand)
        ensures
            views(r.trigger_words()) == seq!["definitions"@, "abv"@, "explain"@],
            r.lines() == config.response@,
    {
        let r = DefinitionsCommand { matches: vec!["definitions", "abv", "explain"], config };
        assert(views(r.matches@) =~= seq!["definitions"@, "abv"@, "explain"@]);
        r
    }

    /// The words a request for this command starts with.
    pub closed spec fn trigger_words(&self) -> Seq<&'static str> {
        self.matches@
    }

    /// The lines of the answer.
    pub closed spec fn lines(&self) -> Seq<String> {
        self.config.response@
    }

    /// Whether a request is meant for this command.
    pub fn matches(&self, message: &str) -> (r: bool)
        ensures
            r == starts_with_any(self.trigger_words(), message@),
    {
        matches_any(&self.matches, message)
    }

    /// The answer: the configured lines, one per line.
    pub fn respond(&self) -> (r: String)
        ensures
            r@ == join(string_views(self.lines()), "\n"@),
    {
        join_strings(&self.config.response, "\n")
    }
}

} // verus!
