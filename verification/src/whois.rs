//! The `who is` command: remembers a message about a user and tells it
//! again.
//!
//! It reads `cc who is USER` (USER running to the end of the message), a
//! request to look up the message saved for the user that USER mentions,
//! and `cc USER is MESSAGE`, a request to save MESSAGE (the rest of the
//! message) for the user that USER mentions. A user is mentioned as
//! `<@ID>`, and ID is read as a number. Every other message is answered
//! that the command is not understood. The command also takes requests
//! that start with a mention and ` is`.
use vstd::prelude::*;
use crate::text::{chars_of, occurs_at, push_signed_decimal, signed_decimal, string_from, views};
use crate::pattern::{
    find_user_mention, first_from, first_user_mention, i64_value, lemma_first_from, line_end,
    line_end_exec, lit_at, parse_i64, parses_i64, user_mention_len,
};
use crate::commands::{
    matches_any, mention_is_exec, starts_with_any, starts_with_mention_is, HelpCommands,
};

verus! {

/// The command.
pub struct WhoIsCommand {
    matches: Vec<&'static str>,
}

/// The help lines of the command.
pub open spec fn whois_help() -> Seq<Seq<char>> {
    seq![
        "   who is @target - Responds with saved message for target"@,
        "       Example: cc WhoIs @chat-cats"@,
        "   @target is <message> - Saves message for target"@,
        "       Example: cc @chat-cats is a cool bot"@,
    ]
}

/// `cc who is USER` starts at `p`, USER being the rest of the message
/// (at least one character, no line break).
pub open spec fn who_is_at(s: Seq<char>) -> spec_fn(int) -> bool {
    |p: int| occurs_at(s, p, "cc who is "@) && p + 10 < s.len() && line_end(s, p + 10) == s.len()
}

/// `USER` of `cc USER is MESSAGE` at `p` is `u` characters long: USER and
/// the first character of MESSAGE on one line.
pub open spec fn is_split(s: Seq<char>, p: int) -> spec_fn(int) -> bool {
    |u: int|
        p + 3 + u <= line_end(s, p + 3) && occurs_at(s, p + 3 + u, " is "@) && p + 3 + u + 4
            < s.len() && s[p + 3 + u + 4] != '\n'
}

/// `cc USER is MESSAGE` starts at `p`.
pub open spec fn is_at(s: Seq<char>) -> spec_fn(int) -> bool {
    |p: int| occurs_at(s, p, "cc "@) && first_from(is_split(s, p), 1, s.len() as int) is Some
}

/// The user part of a `cc who is USER` request in `s`, if there is one.
pub open spec fn who_is_user(s: Seq<char>) -> Option<Seq<char>> {
    match first_from(who_is_at(s), 0, s.len() as int) {
        Some(p) => Some(s.subrange(p + 10, s.len() as int)),
        None => None,
    }
}

/// The user part and the message of a `cc USER is MESSAGE` request in
/// `s`, if there is one; the message is the rest of `s`.
pub open spec fn is_parts(s: Seq<char>) -> Option<(Seq<char>, Seq<char>)> {
    let n = s.len() as int;
    match first_from(is_at(s), 0, n) {
        Some(p) => {
            let u = first_from(is_split(s, p), 1, n)->0;
            Some((s.subrange(p + 3, p + 3 + u), s.subrange(p + 3 + u + 4, n)))
        },
        None => None,
    }
}

/// The digits of the first mention of a user in `u`.
pub open spec fn mention_digits(u: Seq<char>) -> Seq<char> {
    let p = first_user_mention(u)->0;
    u.subrange(p + 2, p + user_mention_len(u, p) - 1)
}

/// Whether the text `u` mentions a user.
pub open spec fn names_user(u: Option<Seq<char>>) -> bool {
    u matches Some(x) && first_user_mention(x) is Some
}

/// A who-is request as numbers and texts.
pub enum WhoIsReading {
    /// Tell the message saved for this user.
    Lookup(int),
    /// Save this message for this user.
    Save(int, Seq<char>),
    /// Say that the command is not understood.
    NotUnderstood,
    /// The mentioned user's id is not a number that fits in an `i64`: the
    /// command stops.
    Invalid,
}

/// What the message text `s` asks of the command.
pub open spec fn read_whois(s: Seq<char>) -> WhoIsReading {
    if names_user(who_is_user(s)) {
        let d = mention_digits(who_is_user(s)->0);
        if parses_i64(d) {
            WhoIsReading::Lookup(i64_value(d))
        } else {
            WhoIsReading::Invalid
        }
    } else if names_user(match is_parts(s) {
        Some(parts) => Some(parts.0),
        None => None,
    }) {
        let d = mention_digits((is_parts(s)->0).0);
        if parses_i64(d) {
            WhoIsReading::Save(i64_value(d), (is_parts(s)->0).1)
        } else {
            WhoIsReading::Invalid
        }
    } else {
        WhoIsReading::NotUnderstood
    }
}

/// A who-is request.
#[derive(Debug, PartialEq, Eq)]
pub enum WhoIsRequest {
    /// Tell the message saved for this user.
    Lookup(i64),
    /// Save this message for this user.
    Save(i64, String),
    /// Say that the command is not understood.
    NotUnderstood,
}

/// Whether `r` is what the reading `g` describes.
pub open spec fn whois_reads_as(r: WhoIsRequest, g: WhoIsReading) -> bool {
    match r {
        WhoIsRequest::Lookup(id) => g == WhoIsReading::Lookup(id as int),
        WhoIsRequest::Save(id, m) => g == WhoIsReading::Save(id as int, m@),
        WhoIsRequest::NotUnderstood => g is NotUnderstood,
    }
}

/// How a reply names user `id`: `<@ID>`.
pub open spec fn user_ref(id: int) -> Seq<char> {
    "<@"@ + signed_decimal(id) + ">"@
}

/// The reply to a lookup: `<@ID> is MESSAGE ` when the saved message could
/// be read, `sorry i do not know <@ID> ` when it could not.
pub open spec fn lookup_text(id: int, saved: Option<Seq<char>>) -> Seq<char> {
    match saved {
        Some(m) => user_ref(id) + " is "@ + m + " "@,
        None => "sorry i do not know "@ + user_ref(id) + " "@,
    }
}

/// The reply to a save: `i now know <@ID> ` when the message was saved,
/// `sorry i could not save <@ID> ` when it was not.
pub open spec fn save_text(id: int, saved: bool) -> Seq<char> {
    if saved {
        "i now know "@ + user_ref(id) + " "@
    } else {
        "sorry i could not save "@ + user_ref(id) + " "@
    }
}

/// The answer to a message the command does not understand.
pub open spec fn not_understood() -> Seq<char> {
    "Sorry i do not understand that command"@
}

/// The help lines of the command.
pub fn whois_help_lines() -> (r: Vec<&'static str>)
    ensures
        views(r@) == whois_help(),
{
    let r = vec![
        "   who is @target - Responds with saved message for target",
        "       Example: cc WhoIs @chat-cats",
        "   @target is <message> - Saves message for target",
        "       Example: cc @chat-cats is a cool bot",
    ];
    assert(views(r@) =~= whois_help());
    r
}

impl HelpCommands for WhoIsCommand {
    open spec fn help_view() -> Seq<Seq<char>> {
        whois_help()
    }

    fn help() -> (r: Vec<&'static str>)
        ensures
            views(r@) == whois_help(),
    {
        whois_help_lines()
    }
}

/// Where the first `cc who is USER` request of `v` starts.
fn find_who_is(v: &Vec<char>) -> (r: Option<usize>)
    ensures
        r is None <==> first_from(who_is_at(v@), 0, v@.len() as int) is None,
        r matches Some(p) ==> first_from(who_is_at(v@), 0, v@.len() as int) == Some(p as int)
            && p + 10 <= v@.len(),
{
    let mut p: usize = 0;
    loop
        invariant
            p <= v.len(),
            first_from(who_is_at(v@), 0, v@.len() as int) == first_from(
                who_is_at(v@),
                p as int,
                v@.len() as int,
            ),
        decreases v.len() - p,
    {
        proof {
            reveal_strlit("cc who is ");
        }
        if lit_at(v, p, "cc who is ") && p + 10 < v.len() && line_end_exec(v, p + 10) == v.len() {
            assert(who_is_at(v@)(p as int));
            return Some(p);
        }
        assert(!who_is_at(v@)(p as int));
        if p == v.len() {
            assert(first_from(who_is_at(v@), p + 1, v@.len() as int) is None);
            return None;
        }
        p = p + 1;
    }
}

/// The length of USER in a `cc USER is MESSAGE` request at `p`, if there
/// is such a request at `p`.
fn split_is(v: &Vec<char>, p: usize) -> (r: Option<usize>)
    requires
        p + 3 <= v@.len(),
    ensures
        r is None <==> first_from(is_split(v@, p as int), 1, v@.len() as int) is None,
        r matches Some(u) ==> first_from(is_split(v@, p as int), 1, v@.len() as int) == Some(
            u as int,
        ) && p + 3 + u <= v@.len(),
{
    let n = v.len();
    let e = line_end_exec(v, p + 3);
    if n == 0 {
        return None;
    }
    let mut u: usize = 1;
    loop
        invariant
            1 <= u <= v.len(),
            n == v.len(),
            p + 3 <= e <= v.len(),
            e == line_end(v@, p + 3),
            first_from(is_split(v@, p as int), 1, v@.len() as int) == first_from(
                is_split(v@, p as int),
                u as int,
                v@.len() as int,
            ),
        decreases v.len() + 1 - u,
    {
        proof {
            reveal_strlit(" is ");
        }
        if u <= e - p - 3 && lit_at(v, p + 3 + u, " is ") && p + 3 + u + 4 < v.len() && v[p + 3 + u
            + 4] != '\n' {
            assert(is_split(v@, p as int)(u as int));
            return Some(u);
        }
        assert(!is_split(v@, p as int)(u as int));
        if u == n {
            assert(first_from(is_split(v@, p as int), u + 1, v@.len() as int) is None);
            return None;
        }
        u = u + 1;
    }
}

/// Where the first `cc USER is MESSAGE` request of `v` starts, and the
/// length of its USER.
fn find_is(v: &Vec<char>) -> (r: Option<(usize, usize)>)
    ensures
        r is None <==> first_from(is_at(v@), 0, v@.len() as int) is None,
        r matches Some(b) ==> first_from(is_at(v@), 0, v@.len() as int) == Some(b.0 as int)
            && first_from(is_split(v@, b.0 as int), 1, v@.len() as int) == Some(b.1 as int) && b.0
            + 3 + b.1 <= v@.len(),
{
    let mut p: usize = 0;
    loop
        invariant
            p <= v.len(),
            first_from(is_at(v@), 0, v@.len() as int) == first_from(
                is_at(v@),
                p as int,
                v@.len() as int,
            ),
        decreases v.len() - p,
    {
        proof {
            reveal_strlit("cc ");
        }
        if lit_at(v, p, "cc ") {
            match split_is(v, p) {
                Some(u) => {
                    assert(is_at(v@)(p as int));
                    return Some((p, u));
                },
                None => {},
            }
        }
        assert(!is_at(v@)(p as int));
        if p == v.len() {
            assert(first_from(is_at(v@), p + 1, v@.len() as int) is None);
            return None;
        }
        p = p + 1;
    }
}

/// Appends `user_ref(id)` to `s`.
fn push_user_ref(s: &mut String, id: i64)
    ensures
        final(s)@ == old(s)@ + user_ref(id as int),
{
    s.append("<@");
    push_signed_decimal(s, id);
    s.append(">");
    assert(final(s)@ =~= old(s)@ + user_ref(id as int));
}

/// The reply to a lookup of user `user`, given the message the store gave
/// back for them (`None` when it could not be read).
pub fn lookup_reply(user: i64, saved: Option<String>) -> (r: String)
    ensures
        saved matches Some(m) ==> r@ == lookup_text(user as int, Some(m@)),
        saved is None ==> r@ == lookup_text(user as int, None),
{
    let mut r = String::new();
    match saved {
        Some(m) => {
            push_user_ref(&mut r, user);
            r.append(" is ");
            r.append(m.as_str());
            r.append(" ");
            assert(r@ =~= lookup_text(user as int, Some(m@)));
        },
        None => {
            r.append("sorry i do not know ");
            push_user_ref(&mut r, user);
            r.append(" ");
            assert(r@ =~= lookup_text(user as int, None));
        },
    }
    r
}

/// The reply to a save for user `user`, given whether the store saved the
/// message.
pub fn save_reply(user: i64, saved: bool) -> (r: String)
    ensures
        r@ == save_text(user as int, saved),
{
    let mut r = String::new();
    if saved {
        r.append("i now know ");
    } else {
        r.append("sorry i could not save ");
    }
    push_user_ref(&mut r, user);
    r.append(" ");
    r
}

/// The reply to a message the command does not understand.
pub fn not_understood_reply() -> (r: String)
    ensures
        r@ == not_understood(),
{
    string_from("Sorry i do not understand that command")
}

/// The id of the first mention of a user in `u`, when `u` has one: `None`
/// when it has none, `Some(None)` when its digits are no number that fits
/// in an `i64`.
fn mentioned_id(u: &Vec<char>) -> (r: Option<Option<i64>>)
    ensures
        r is None <==> first_user_mention(u@) is None,
        r matches Some(x) ==> (x is Some <==> parses_i64(mention_digits(u@))),
        r matches Some(Some(id)) ==> id == i64_value(mention_digits(u@)),
{
    match find_user_mention(u) {
        Some((p, q)) => Some(parse_i64(u, p + 2, q - 1)),
        None => None,
    }
}

impl WhoIsCommand {
    /// What the router needs to know of the command: its help lines, its
    /// trigger words, and that it takes requests that start with a mention
    /// and ` is`.
    pub fn entry(&self) -> (r: crate::commands::CommandEntry)
        ensures
            r.matches@ == self.trigger_words(),
            r.mention_is,
            crate::text::views(r.help@) == whois_help(),
    {
        let help: Vec<&'static str> = whois_help_lines();
        proof {
            assert(crate::text::views(help@) =~= whois_help());
        }
        crate::commands::CommandEntry {
            help,
            matches: crate::commands::copy_words(&self.matches),
            mention_is: true,
        }
    }

    /// The command, triggered by "who is" and by requests that start with
    /// a mention of a user and ` is` (`<@.+?> is`).
    pub fn new(_config: ()) -> (r: WhoIsCommand)
        ensures
            views(r.trigger_words()) == seq!["who is"@],
    {
        let r = WhoIsCommand { matches: vec!["who is"] };
        assert(views(r.matches@) =~= seq!["who is"@]);
        r
    }

    /// The words a request for this command starts with.
    pub closed spec fn trigger_words(&self) -> Seq<&'static str> {
        self.matches@
    }

    /// Whether a request is meant for this command: it starts with "who
    /// is", or with a mention of a user and ` is`.
    pub fn matches(&self, message: &str) -> (r: bool)
        ensures
            r == (starts_with_any(self.trigger_words(), message@) || starts_with_mention_is(
                message@,
            )),
    {
        matches_any(&self.matches, message) || mention_is_exec(message)
    }

    /// What the message text `content` asks of the command; `None` when the
    /// mentioned user's id is no number that fits in an `i64` (the command
    /// stops there).
    pub fn respond(&self, content: &str) -> (r: Option<WhoIsRequest>)
        ensures
            read_whois(content@) is Invalid <==> r is None,
            r matches Some(x) ==> whois_reads_as(x, read_whois(content@)),
    {
        let v = chars_of(content);
        let n = v.len();
        match find_who_is(&v) {
            Some(p) => {
                let user = crate::text::string_of_range(&v, p + 10, n);
                let uv = chars_of(user.as_str());
                match mentioned_id(&uv) {
                    Some(Some(id)) => {
                        return Some(WhoIsRequest::Lookup(id));
                    },
                    Some(None) => {
                        return None;
                    },
                    None => {},
                }
            },
            None => {},
        }
        match find_is(&v) {
            Some((p, u)) => {
                let user = crate::text::string_of_range(&v, p + 3, p + 3 + u);
                let uv = chars_of(user.as_str());
                match mentioned_id(&uv) {
                    Some(Some(id)) => {
                        assert(p + 3 + u + 4 < n) by {
                            lemma_first_from(is_split(v@, p as int), 1, n as int);
                        }
                        let message = crate::text::string_of_range(&v, p + 3 + u + 4, n);
                        return Some(WhoIsRequest::Save(id, message));
                    },
                    Some(None) => {
                        return None;
                    },
                    None => {},
                }
            },
            None => {},
        }
        Some(WhoIsRequest::NotUnderstood)
    }
}

} // verus!
