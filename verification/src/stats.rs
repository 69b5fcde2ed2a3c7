//! The `stats` command: recognised, but it sends nothing.
use vstd::prelude::*;
use crate::text::views;
use crate::commands::{matches_any, starts_with_any, HelpCommands};

verus! {

/// The command.
pub struct StatsCommand {
    matches: Vec<&'static str>,
}

impl HelpCommands for StatsCommand {
    open spec fn help_view() -> Seq<Seq<char>> {
        Seq::empty()
    }

    /// The command lists no help lines.
    fn help() -> (r: Vec<&'static str>)
    {
        let r = Vec::new();
        assert(views(r@) =~= Seq::<Seq<char>>::empty());
        r
    }
}

impl StatsCommand {
    /// What the router needs to know of the command: its help lines and
    /// its trigger words.
    pub fn entry(&self) -> (r: crate::commands::CommandEntry)
        ensures
            r.matches@ == self.trigger_words(),
            !r.mention_is,
            crate::text::views(r.help@) == Seq::<Seq<char>>::empty(),
    {
        let help: Vec<&'static str> = Vec::new();
        proof {
            assert(crate::text::views(help@) =~= Seq::<Seq<char>>::empty());
        }
        crate::commands::CommandEntry {
            help,
            matches: crate::commands::copy_words(&self.matches),
            mention_is: false,
        }
    }

    /// The command, triggered by "stats" or "slaps".
    pub fn new(_config: ()) -> (r: StatsCommand)
        ensures
            views(r.trigger_words()) == seq!["stats"@, "slaps"@],
    {
        let r = StatsCommand { matches: vec!["stats", "slaps"] };
        assert(views(r.matches@) =~= seq!["stats"@, "slaps"@]);
        r
    }

    /// The words a request for this command starts with.
    pub closed spec fn trigger_words(&self) -> Seq<&'static str> {
        self.matches@
    }

    /// Whether a request is meant for this command.
    pub fn matches(&self, message: &str) -> (r: bool)
        ensures
            r == starts_with_any(self.trigger_words(), message@),
    {
        matches_any(&self.matches, message)
    }
}

} // verus!
