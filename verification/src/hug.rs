//! The `hug` command: a hug for the first user a message mentions.
use vstd::prelude::*;
use crate::text::{chars_of, mention, push_mention, push_range, views};
use crate::pattern::{find_user_mention, first_user_mention, user_mention_len};
use crate::commands::{matches_any, starts_with_any, HelpCommands};
use crate::random::pick;

verus! {

/// The hugs the command picks from.
#[derive(Clone, Debug)]
pub struct HugConfig {
    pub responses: Vec<String>,
}

/// The command.
pub struct HugCommand {
    matches: Vec<&'static str>,
    config: HugConfig,
}

/// The help lines of the command.
pub open spec fn hug_help() -> Seq<Seq<char>> {
    seq![
        "   hug <target> - Responds with a random hug message"@,
        "       Example: cc hug @user"@,
    ]
}

/// The first mention of a user in the message text `s`, if any.
pub open spec fn hug_target(s: Seq<char>) -> Option<Seq<char>> {
    match first_user_mention(s) {
        Some(p) => Some(s.subrange(p, p + user_mention_len(s, p))),
        None => None,
    }
}

/// The hug: `<@AUTHOR> gives TARGET a HUG`.
pub open spec fn hug_text(author: nat, target: Seq<char>, hug: Seq<char>) -> Seq<char> {
    mention(author) + " gives "@ + target + " a "@ + hug
}

/// Whether `text` is a hug from `author` for `target` with one of `hugs`.
pub open spec fn hugged(author: nat, target: Seq<char>, hugs: Seq<String>, text: Seq<char>) -> bool {
    exists|h: String| #[trigger] hugs.contains(h) && text == hug_text(author, target, h@)
}

/// The answer when no one is mentioned.
pub open spec fn no_target_text() -> Seq<char> {
    "No target for the hug was specified"@
}

/// The help lines of the command.
pub fn hug_help_lines() -> (r: Vec<&'static str>)
    ensures
        views(r@) == hug_help(),
{
    let r = vec![
        "   hug <target> - Responds with a random hug message",
        "       Example: cc hug @user",
    ];
    assert(views(r@) =~= hug_help());
    r
}

impl HelpCommands for HugCommand {
    open spec fn help_view() -> Seq<Seq<char>> {
        hug_help()
    }

    fn help() -> (r: Vec<&'static str>)
        ensures
            views(r@) == hug_help(),
    {
        hug_help_lines()
    }
}

impl HugCommand {
    /// What the router needs to know of the command: its help lines and
    /// its trigger words.
    pub fn entry(&self) -> (r: crate::commands::CommandEntry)
        ensures
            r.matches@ == self.trigger_words(),
            !r.mention_is,
            crate::text::views(r.help@) == hug_help(),
    {
        let help: Vec<&'static str> = hug_help_lines();
        proof {
            assert(crate::text::views(help@) =~= hug_help());
        }
        crate::commands::CommandEntry {
            help,
            matches: crate::commands::copy_words(&self.matches),
            mention_is: false,
        }
    }

    /// The command, triggered by "hug".
    pub fn new(config: HugConfig) -> (r: HugCommand)
        ensures
            views(r.trigger_words()) == seq!["hug"@],
            r.hugs() == config.responses@,
    {
        let r = HugCommand { matches: vec!["hug"], config };
        assert(views(r.matches@) =~= seq!["hug"@]);
        r
    }

    /// The words a request for this command starts with.
    pub closed spec fn trigger_words(&self) -> Seq<&'static str> {
        self.matches@
    }

    /// The hugs the command picks from.
    pub closed spec fn hugs(&self) -> Seq<String> {
        self.config.responses@
    }

    /// Whether a request is meant for this command.
    pub fn matches(&self, message: &str) -> (r: bool)
        ensures
            r == starts_with_any(self.trigger_words(), message@),
    {
        matches_any(&self.matches, message)
    }

    /// The answer to a hug request with text `content` from `author`: a hug
    /// picked at random for the first user mentioned, or the answer that no
    /// one is; `None` when someone is mentioned but there is no hug to pick
    /// (the command stops there).
    pub fn respond(&self, content: &str, author: u64) -> (r: Option<String>)
        ensures
            hug_target(content@) is None ==> (r matches Some(text) && text@ == no_target_text()),
            hug_target(content@) is Some && self.hugs().len() == 0 ==> r is None,
            self.hugs().len() > 0 && hug_target(content@) is Some ==> (r matches Some(text)
                && hugged(author as nat, hug_target(content@)->0, self.hugs(), text@)),
    {
        let v = chars_of(content);
        match find_user_mention(&v) {
            None => {
                proof {
                    reveal_strlit("No target for the hug was specified");
                }
                Some(crate::text::string_from("No target for the hug was specified"))
            },
            Some((p, q)) => {
                if self.config.responses.len() == 0 {
                    return None;
                }
                let hug = pick(&self.config.responses);
                let mut r = String::new();
                push_mention(&mut r, author);
                r.append(" gives ");
                push_range(&mut r, &v, p, q);
                r.append(" a ");
                r.append(hug.as_str());
                assert(r@ =~= hug_text(author as nat, v@.subrange(p as int, q as int), hug@));
                assert(self.hugs().contains(*hug));
                assert(hug_target(content@) == Some(v@.subrange(p as int, q as int)));
                let ghost h: String = *hug;
                assert(self.hugs().contains(h) && r@ == hug_text(author as nat, v@.subrange(p as int, q as int), h@));
                assert(hugged(author as nat, v@.subrange(p as int, q as int), self.hugs(), r@));
                Some(r)
            },
        }
    }
}

} // verus!
