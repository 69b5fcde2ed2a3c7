//! The `help` command: sends the configured lines to the author in
//! private.
use vstd::prelude::*;
use crate::text::{join, join_strings, string_views, views};
use crate::commands::{matches_any, starts_with_any, HelpCommands};

verus! {

/// The lines of the answer.
#[derive(Clone, Debug)]
pub struct HelpConfig {
    pub response: Vec<String>,
}

/// The command.
pub struct HelpCommand {
    matches: Vec<&'static str>,
    config: HelpConfig,
}

impl HelpCommands for HelpCommand {
    open spec fn help_view() -> Seq<Seq<char>> {
        Seq::empty()
    }

    /// The command lists no help lines of its own.
    fn help() -> (r: Vec<&'static str>)
    {
        let r = Vec::new();
        assert(views(r@) =~= Seq::<Seq<char>>::empty());
        r
    }
}

impl HelpCommand {
    /// What the router needs to know of the command: its help lines and
    /// its trigger words.
    pub fn entry(&self) -> (r: crate::commands::CommandEntry)
        ensures
            r.matches@ == self.trigger_words(),
            !r.mention_is,
            crate::text::views(r.help@) == Seq::<Seq<char>>::empty(),
    {
        let help: Vec<&'static str> = Vec::new();
        proof {
            assert(crate::text::views(help@) =~= Seq::<Seq<char>>::empty());
        }
        crate::commands::CommandEntry {
            help,
            matches: crate::commands::copy_words(&self.matches),
            mention_is: false,
        }
    }

    /// The command, triggered by "commands", "help" or "what can you do".
    pub fn new(config: HelpConfig) -> (r: HelpCommand)
        ensures
            views(r.trigger_words()) == seq!["commands"@, "help"@, "what can you do"@],
            r.lines() == config.response@,
    {
        let r = HelpCommand { matches: vec!["commands", "help", "what can you do"], config };
        assert(views(r.matches@) =~= seq!["commands"@, "help"@, "what can you do"@]);
        r
    }

    /// The words a request for this command starts with.
    pub closed spec fn trigger_words(&self) -> Seq<&'static str> {
        self.matches@
    }

    /// The lines of the answer.
    pub closed spec fn lines(&self) -> Seq<String> {
        self.config.response@
    }

    /// Whether a request is meant for this command.
    pub fn matches(&self, message: &str) -> (r: bool)
        ensures
            r == starts_with_any(self.trigger_words(), message@),
    {
        matches_any(&self.matches, message)
    }

    /// The answer sent in private: the configured lines, one per line.
    pub fn respond(&self) -> (r: String)
        ensures
            r@ == join(string_views(self.lines()), "\n"@),
    {
        join_strings(&self.config.response, "\n")
    }
}

} // verus!
