//! The `slap` command: reading a slap request, composing slap messages,
//! choosing a random victim, and the texts of the statistics.
//!
//! After the words "cc slap" are removed, the first word of the request
//! chooses: `help`, `stats`, `leaderboard`, `top`, `random`, or else a
//! mention of the user to slap (a word without a mention asks for help).
use vstd::prelude::*;
use crate::text::{
    chars_of, contains, contains_exec, first_word, first_word_of, has_word, join, join_strings,
    mention, push_mention, push_signed_decimal, replace, replace_exec, signed_decimal,
    string_of_range, string_views, text_eq, trim, trim_bounds, views, is_white,
};
use crate::pattern::{
    find_user_mention, first_user_mention, i64_value, parse_i64, parses_i64, user_mention_len,
};
use crate::commands::{matches_any, starts_with_any, HelpCommands};
use crate::cache::{is_default, lookup, store, Cache};
use crate::random::pick;

verus! {

/// The words that slap messages are made of.
#[derive(Clone, Debug)]
pub struct SlapConfig {
    pub actions: Vec<String>,
    pub objects: Vec<String>,
    pub body_parts: Vec<String>,
    pub results: Vec<String>,
}

/// What a slap request asks for.
#[derive(Debug, PartialEq, Eq, Hash)]
pub enum SubCommand {
    Help,
    Stats,
    Leaderboard,
    Top,
    Random,
    /// Slap the user that this mention names.
    Slap(String),
}

/// A slap request as a text.
pub enum SlapReading {
    Help,
    Stats,
    Leaderboard,
    Top,
    Random,
    Slap(Seq<char>),
    /// A request without any word after "cc slap", on which the command
    /// stops.
    Invalid,
}

/// The request left once "cc slap" is removed, trimmed.
pub open spec fn slap_body(content: Seq<char>) -> Seq<char> {
    trim(replace(content, "cc slap"@, Seq::empty()))
}

/// What the message text `content` asks of the command.
pub open spec fn read_slap(content: Seq<char>) -> SlapReading {
    let t = slap_body(content);
    if !has_word(t) {
        SlapReading::Invalid
    } else {
        let w = first_word_of(t);
        if w == "help"@ {
            SlapReading::Help
        } else if w == "stats"@ {
            SlapReading::Stats
        } else if w == "leaderboard"@ {
            SlapReading::Leaderboard
        } else if w == "top"@ {
            SlapReading::Top
        } else if w == "random"@ {
            SlapReading::Random
        } else {
            match first_user_mention(w) {
                Some(p) => SlapReading::Slap(w.subrange(p, p + user_mention_len(w, p))),
                None => SlapReading::Help,
            }
        }
    }
}

/// Whether `r` is what the reading `g` describes.
pub open spec fn slap_reads_as(r: SubCommand, g: SlapReading) -> bool {
    match r {
        SubCommand::Help => g is Help,
        SubCommand::Stats => g is Stats,
        SubCommand::Leaderboard => g is Leaderboard,
        SubCommand::Top => g is Top,
        SubCommand::Random => g is Random,
        SubCommand::Slap(m) => g == SlapReading::Slap(m@),
    }
}

/// Removing a pattern that begins with a character `t` lacks leaves `t`
/// as it is.
proof fn lemma_replace_absent(t: Seq<char>, pat: Seq<char>, rep: Seq<char>)
    requires
        pat.len() > 0,
        forall|k: int| 0 <= k < t.len() ==> t[k] != pat[0],
    ensures
        replace(t, pat, rep) == t,
    decreases t.len(),
{
    if t.len() >= pat.len() {
        assert(t.take(pat.len() as int)[0] != pat[0]);
        lemma_replace_absent(t.drop_first(), pat, rep);
        assert(seq![t[0]] + t.drop_first() =~= t);
    }
}

/// A request `cc slap W`, where the word `W` holds no white space and no
/// `c`, has `W` as its first word.
proof fn lemma_kind_word(w: Seq<char>)
    requires
        w.len() > 0,
        forall|k: int| 0 <= k < w.len() ==> !is_white(#[trigger] w[k]) && w[k] != 'c',
    ensures
        slap_body("cc slap"@ + seq![' '] + w) == w,
        has_word(w),
        first_word_of(w) == w,
{
    reveal_strlit("cc slap");
    let pat = "cc slap"@;
    let t = seq![' '] + w;
    let s = pat + t;
    assert(s =~= "cc slap"@ + seq![' '] + w);
    assert forall|k: int| 0 <= k < t.len() implies t[k] != pat[0] by {
        if k > 0 {
            assert(t[k] == w[k - 1]);
        }
    }
    lemma_replace_absent(t, pat, Seq::empty());
    assert(s.take(7) =~= pat);
    assert(s.skip(7) =~= t);
    assert(replace(s, pat, Seq::empty()) == Seq::<char>::empty() + replace(t, pat, Seq::empty()));
    assert(Seq::<char>::empty() + t =~= t);
    assert forall|k: int| 1 <= k < t.len() implies !is_white(#[trigger] t[k]) by {
        assert(t[k] == w[k - 1]);
    }
    crate::text::lemma_lead_white(t, 1);
    assert(t[1] == w[0]);
    let u = t.skip(1);
    assert(u =~= w);
    crate::text::lemma_trail_white(u, u.len() as int);
    assert(trim(t) =~= w);
    assert(replace(s, pat, Seq::empty()) == t);
    assert(slap_body(s) == w);
    crate::text::lemma_lead_white(w, 0);
    crate::text::lemma_word_len(w, 0, w.len() as int);
    assert(first_word_of(w) =~= w);
}

/// A request that names one of the kinds listed in the help (`cc slap
/// help`, `cc slap stats`, `cc slap leaderboard`, `cc slap top`, `cc slap
/// random`) reads back as that kind.
pub proof fn law_kind_names_read_back(k: SubCommand)
    requires
        !(k is Slap),
    ensures
        slap_reads_as(k, read_slap("cc "@ + subcommand_name(k))),
{
    reveal_strlit("cc ");
    reveal_strlit("cc slap");
    reveal_strlit("slap help");
    reveal_strlit("slap stats");
    reveal_strlit("slap leaderboard");
    reveal_strlit("slap top");
    reveal_strlit("slap random");
    reveal_strlit("help");
    reveal_strlit("stats");
    reveal_strlit("leaderboard");
    reveal_strlit("top");
    reveal_strlit("random");
    let w: Seq<char> = match k {
        SubCommand::Help => "help"@,
        SubCommand::Stats => "stats"@,
        SubCommand::Leaderboard => "leaderboard"@,
        SubCommand::Top => "top"@,
        _ => "random"@,
    };
    assert("cc "@ + subcommand_name(k) =~= "cc slap"@ + seq![' '] + w);
    lemma_kind_word(w);
}

/// The name under which each kind of request is listed.
pub open spec fn subcommand_name(r: SubCommand) -> Seq<char> {
    match r {
        SubCommand::Help => "slap help"@,
        SubCommand::Stats => "slap stats"@,
        SubCommand::Leaderboard => "slap leaderboard"@,
        SubCommand::Top => "slap top"@,
        SubCommand::Random => "slap random"@,
        SubCommand::Slap(_) => "slap"@,
    }
}

/// The names of all kinds of request, in order: the command's trigger
/// words.
pub open spec fn slap_words() -> Seq<Seq<char>> {
    seq![
        "slap help"@,
        "slap stats"@,
        "slap leaderboard"@,
        "slap top"@,
        "slap random"@,
        "slap"@,
    ]
}

impl SubCommand {
    /// The name under which this kind of request is listed.
    pub fn into(self) -> (r: &'static str)
        ensures
            r@ == subcommand_name(self),
    {
        match self {
            SubCommand::Help => "slap help",
            SubCommand::Stats => "slap stats",
            SubCommand::Leaderboard => "slap leaderboard",
            SubCommand::Top => "slap top",
            SubCommand::Random => "slap random",
            SubCommand::Slap(_) => "slap",
        }
    }

    /// One request of each kind, in the order they are listed (the slap
    /// request with an empty mention).
    pub fn iter() -> (r: Vec<SubCommand>)
        ensures
            r@.len() == 6,
            forall|i: int| 0 <= i < 6 ==> subcommand_name(#[trigger] r@[i]) == slap_words()[i],
    {
        let r = vec![
            SubCommand::Help,
            SubCommand::Stats,
            SubCommand::Leaderboard,
            SubCommand::Top,
            SubCommand::Random,
            SubCommand::Slap(String::new()),
        ];
        r
    }

    /// Reads a slap request from the message text `content`; `None` when
    /// there is no word after "cc slap" (the command stops there).
    pub fn parse(content: &str) -> (r: Option<SubCommand>)
        ensures
            read_slap(content@) is Invalid <==> r is None,
            r matches Some(x) ==> slap_reads_as(x, read_slap(content@)),
    {
        let cv = chars_of(content);
        let pat = chars_of("cc slap");
        proof {
            reveal_strlit("cc slap");
            reveal_strlit("");
        }
        let body = replace_exec(&cv, &pat, "");
        assert(""@ =~= Seq::<char>::empty());
        let bv = chars_of(body.as_str());
        let (lo, hi) = trim_bounds(&bv);
        let t = string_of_range(&bv, lo, hi);
        let tv = chars_of(t.as_str());
        match first_word(&tv) {
            None => None,
            Some((a, b)) => {
                let w = string_of_range(&tv, a, b);
                if text_eq(w.as_str(), "help") {
                    Some(SubCommand::Help)
                } else if text_eq(w.as_str(), "stats") {
                    Some(SubCommand::Stats)
                } else if text_eq(w.as_str(), "leaderboard") {
                    Some(SubCommand::Leaderboard)
                } else if text_eq(w.as_str(), "top") {
                    Some(SubCommand::Top)
                } else if text_eq(w.as_str(), "random") {
                    Some(SubCommand::Random)
                } else {
                    let wv = chars_of(w.as_str());
                    match find_user_mention(&wv) {
                        Some((p, q)) => Some(SubCommand::Slap(string_of_range(&wv, p, q))),
                        None => Some(SubCommand::Help),
                    }
                }
            },
        }
    }

    /// Reads a slap request from the message text `content` (the
    /// conversion from a message).
    pub fn from_content(content: &str) -> (r: SubCommand)
        requires
            !(read_slap(content@) is Invalid),
        ensures
            slap_reads_as(r, read_slap(content@)),
    {
        match SubCommand::parse(content) {
            Some(x) => x,
            None => SubCommand::Help,
        }
    }
}

/// The slap message: `<@AUTHOR> ACTION VICTIM with OBJECT BODY_PART and
/// RESULT`, where `<@>` in RESULT stands for the victim.
pub open spec fn slap_text(
    author: nat,
    oponent: Seq<char>,
    action: Seq<char>,
    object: Seq<char>,
    body_part: Seq<char>,
    result: Seq<char>,
) -> Seq<char> {
    mention(author) + " "@ + action + " "@ + oponent + " with "@ + object + " "@ + body_part
        + " and "@ + replace(result, "<@>"@, oponent)
}

/// The number of bytes that `c` takes in UTF-8.
pub open spec fn utf8_width(c: char) -> int {
    if (c as u32) < 0x80 {
        1
    } else if (c as u32) < 0x800 {
        2
    } else if (c as u32) < 0x10000 {
        3
    } else {
        4
    }
}

/// The victim's id as written in `oponent`: the text from its third byte
/// up to, not including, its last byte (the `ID` of a mention `<@ID>`);
/// `None` when those bounds do not fall between characters or are in the
/// wrong order, where cutting out the text stops the command.
pub open spec fn victim_id(oponent: Seq<char>) -> Option<Seq<char>> {
    let n = oponent.len() as int;
    let start: int = if n >= 1 && utf8_width(oponent[0]) == 2 {
        1
    } else if n >= 2 && utf8_width(oponent[0]) == 1 && utf8_width(oponent[1]) == 1 {
        2
    } else {
        -1
    };
    if 0 <= start <= n - 1 && utf8_width(oponent[n - 1]) == 1 {
        Some(oponent.subrange(start, n - 1))
    } else {
        None
    }
}

/// Whether a slap with this message can go ahead: a message marked with
/// `!!!` is not counted; any other counts, and then the victim's id must
/// be a number that fits in an `i64`.
pub open spec fn slap_countable(text: Seq<char>, oponent: Seq<char>) -> bool {
    contains(text, "!!!"@) || (victim_id(oponent) matches Some(t) && parses_i64(t))
}

/// A composed slap: the message to send, and the slap to count, if any
/// (author's id, victim's id).
pub struct SlapOutcome {
    pub text: String,
    pub record: Option<(i64, i64)>,
}

/// What a slap with message `text` amounts to.
pub open spec fn slap_outcome(author: nat, oponent: Seq<char>, text: Seq<char>, r: SlapOutcome) -> bool {
    &&& r.text@ == replace(text, "!!!"@, Seq::empty())
    &&& if contains(text, "!!!"@) {
        r.record is None
    } else {
        r.record == Some(((author as u64) as i64, i64_value(victim_id(oponent)->0) as i64))
    }
}

/// Whether `w` has words in each of its lists.
pub open spec fn has_words(w: SlapConfig) -> bool {
    w.actions@.len() > 0 && w.objects@.len() > 0 && w.body_parts@.len() > 0 && w.results@.len() > 0
}

/// Whether the words `a`, `o`, `b`, `x` are among the words of `w`, one
/// from each list.
pub open spec fn picks(w: SlapConfig, a: String, o: String, b: String, x: String) -> bool {
    w.actions@.contains(a) && w.objects@.contains(o) && w.body_parts@.contains(b)
        && w.results@.contains(x)
}

/// The marker that keeps a slap from being counted.
pub open spec fn marker() -> Seq<char> {
    seq!['!', '!', '!']
}

/// Removing the marker keeps a first character that is not `!`.
proof fn lemma_unmarked_first(s: Seq<char>)
    requires
        s.len() > 0,
        s[0] != '!',
    ensures
        replace(s, marker(), Seq::empty()).len() > 0,
        replace(s, marker(), Seq::empty())[0] == s[0],
{
    if s.len() >= 3 {
        assert(s.take(3) != marker()) by {
            assert(s.take(3)[0] != marker()[0]);
        }
        assert(replace(s, marker(), Seq::empty()) == seq![s[0]] + replace(
            s.drop_first(),
            marker(),
            Seq::empty(),
        ));
    }
}

/// Removing the marker from a text that begins with `!` and then another
/// character keeps those two characters.
proof fn lemma_unmarked_bang(s: Seq<char>)
    requires
        s.len() >= 2,
        s[0] == '!',
        s[1] != '!',
    ensures
        replace(s, marker(), Seq::empty()).len() >= 2,
        replace(s, marker(), Seq::empty())[0] == '!',
        replace(s, marker(), Seq::empty())[1] == s[1],
{
    lemma_unmarked_first(s.drop_first());
    if s.len() >= 3 {
        assert(s.take(3) != marker()) by {
            assert(s.take(3)[1] != marker()[1]);
        }
    }
}

/// No marker is left once every marker is removed.
proof fn lemma_unmarked(s: Seq<char>)
    ensures
        !contains(replace(s, marker(), Seq::empty()), marker()),
    decreases s.len(),
{
    let r = replace(s, marker(), Seq::empty());
    if s.len() < 3 {
        assert forall|i: int| !crate::text::occurs_at(r, i, marker()) by {}
    } else if s.take(3) == marker() {
        lemma_unmarked(s.skip(3));
        assert(r == Seq::<char>::empty() + replace(s.skip(3), marker(), Seq::empty()));
        assert(Seq::<char>::empty() + replace(s.skip(3), marker(), Seq::empty()) =~= replace(s.skip(3), marker(), Seq::empty()));
    } else {
        let rest = s.drop_first();
        let t = replace(rest, marker(), Seq::empty());
        lemma_unmarked(rest);
        assert(r == seq![s[0]] + t);
        if s[0] == '!' {
            if s[1] != '!' {
                lemma_unmarked_first(rest);
            } else {
                assert(s[2] != '!') by {
                    if s[2] == '!' {
                        assert(s.take(3) =~= marker());
                    }
                }
                lemma_unmarked_bang(rest);
            }
        }
        assert forall|i: int| !crate::text::occurs_at(r, i, marker()) by {
            if crate::text::occurs_at(r, i, marker()) {
                if i == 0 {
                    assert(r.subrange(0, 3)[0] == r[0]);
                    assert(r.subrange(0, 3)[1] == t[0]);
                    assert(r.subrange(0, 3)[2] == t[1]);
                } else {
                    assert(t.subrange(i - 1, i + 2) =~= r.subrange(i, i + 3));
                    assert(crate::text::occurs_at(t, i - 1, marker()));
                }
            }
        }
    }
}

/// The text a slap sends never shows the marker `!!!`.
pub proof fn law_sent_slap_has_no_marker(author: nat, oponent: Seq<char>, text: Seq<char>, r: SlapOutcome)
    requires
        slap_outcome(author, oponent, text, r),
    ensures
        !contains(r.text@, "!!!"@),
{
    reveal_strlit("!!!");
    assert("!!!"@ =~= marker());
    lemma_unmarked(text);
}

/// Whether `r` is how a slap of `oponent` by `author` with the words `a`,
/// `o`, `b`, `x` ends: the outcome of its message when the slap can go
/// ahead, nothing when it cannot.
pub open spec fn slap_ends(
    author: nat,
    oponent: Seq<char>,
    a: Seq<char>,
    o: Seq<char>,
    b: Seq<char>,
    x: Seq<char>,
    r: Option<SlapOutcome>,
) -> bool {
    let text = slap_text(author, oponent, a, o, b, x);
    if slap_countable(text, oponent) {
        r matches Some(out) && slap_outcome(author, oponent, text, out)
    } else {
        r is None
    }
}

/// Whether `r` is how a slap of `oponent` by `author` ends with some pick
/// of the words of `w`.
pub open spec fn picked_slap(w: SlapConfig, author: nat, oponent: Seq<char>, r: Option<SlapOutcome>) -> bool {
    exists|a: String, o: String, b: String, x: String|
        #[trigger] picks(w, a, o, b, x) && slap_ends(author, oponent, a@, o@, b@, x@, r)
}

/// A line of the leader board: `  NAME with COUNT slaps`.
pub open spec fn board_line(name: Seq<char>, count: int) -> Seq<char> {
    "  "@ + name + " with "@ + signed_decimal(count) + " slaps"@
}

/// The lines of a leader board.
pub open spec fn board_lines(entries: Seq<(String, i32)>) -> Seq<Seq<char>> {
    entries.map_values(|e: (String, i32)| board_line(e.0@, e.1 as int))
}

/// A leader board shows every entry it is given, one line each, in the
/// order given: `  NAME with COUNT slaps`.
pub proof fn law_board_shows_every_entry(entries: Seq<(String, i32)>)
    ensures
        board_lines(entries).len() == entries.len(),
        forall|i: int|
            0 <= i < entries.len() ==> #[trigger] board_lines(entries)[i] == "  "@ + entries[i].0@
                + " with "@ + signed_decimal(entries[i].1 as int) + " slaps"@,
{
}

/// The leader board.
pub open spec fn board_text(slappers: Seq<(String, i32)>, slappees: Seq<(String, i32)>) -> Seq<
    char,
> {
    "```Top 3 Slappers:\n\n"@ + join(board_lines(slappers), "\n"@) + " \n\nTop 3 Slapped:\n\n"@
        + join(board_lines(slappees), "\n"@) + "\n\n```"@
}

/// The statistics of a user.
pub open spec fn stats_text(author: nat, given: int, received: int) -> Seq<char> {
    mention(author) + " has slapped "@ + signed_decimal(given) + " people, and have been slapped "@
        + signed_decimal(received) + " times"@
}

/// The help lines of the command.
pub open spec fn slap_help() -> Seq<Seq<char>> {
    seq![
        "   slap help - Responds with a list of slap commands"@,
        "       Example: cc slap help"@,
        "   slap stats - Responds with stats about your slaps"@,
        "   slap leaderboard - Responds with the slap leaderboard"@,
        "       Example: cc slap leaderboard"@,
        "       Example: cc slap top"@,
        "   slap random - Responds with a random slap message aimed at a random online user"@,
        "       Example: cc slap random"@,
        "   slap @target - Responds with a random slap message aimed at the @target user"@,
        "       Example: cc slap @ChatCats"@,
    ]
}

/// Whether `ids` lists, in increasing order and once each, the users who
/// wrote one of `messages` (pairs of author and whether the author is a
/// bot) and are not bots.
pub open spec fn candidates_of(messages: Seq<(u64, bool)>, ids: Seq<u64>) -> bool {
    &&& forall|i: int, j: int| 0 <= i < j < ids.len() ==> ids[i] < ids[j]
    &&& forall|id: u64|
        #![trigger ids.contains(id)]
        #![trigger wrote(messages, id)]
        ids.contains(id) <==> wrote(messages, id)
}

/// Whether the user `id`, not a bot, wrote one of `messages`.
pub open spec fn wrote(messages: Seq<(u64, bool)>, id: u64) -> bool {
    exists|k: int| 0 <= k < messages.len() && #[trigger] messages[k] == (id, false)
}

proof fn lemma_wrote_step(messages: Seq<(u64, bool)>, k: int, x: u64)
    requires
        0 <= k < messages.len(),
    ensures
        wrote(messages.take(k + 1), x) <==> (wrote(messages.take(k), x) || messages[k] == (x, false)),
{
    if wrote(messages.take(k + 1), x) {
        let j = choose|j: int| 0 <= j < k + 1 && #[trigger] messages.take(k + 1)[j] == (x, false);
        if j < k {
            assert(messages.take(k)[j] == (x, false));
        }
    }
    if wrote(messages.take(k), x) {
        let j = choose|j: int| 0 <= j < k && #[trigger] messages.take(k)[j] == (x, false);
        assert(messages.take(k + 1)[j] == (x, false));
    }
    if messages[k] == (x, false) {
        assert(messages.take(k + 1)[k] == (x, false));
    }
}

/// The command, with its trigger words, its words and its cache of names.
pub struct SlapCommand {
    matches: Vec<&'static str>,
    config: SlapConfig,
    cache: Cache<i64, String, 20>,
}

impl HelpCommands for SlapCommand {
    open spec fn help_view() -> Seq<Seq<char>> {
        slap_help()
    }

    /// The help lines of `slap_help`.
    fn help() -> (r: Vec<&'static str>) {
        slap_help_lines()
    }
}

/// The help lines of the command.
pub fn slap_help_lines() -> (r: Vec<&'static str>)
    ensures
        views(r@) == slap_help(),
{
    {
        let r = vec![
            "   slap help - Responds with a list of slap commands",
            "       Example: cc slap help",
            "   slap stats - Responds with stats about your slaps",
            "   slap leaderboard - Responds with the slap leaderboard",
            "       Example: cc slap leaderboard",
            "       Example: cc slap top",
            "   slap random - Responds with a random slap message aimed at a random online user",
            "       Example: cc slap random",
            "   slap @target - Responds with a random slap message aimed at the @target user",
            "       Example: cc slap @ChatCats",
        ];
        assert(views(r@) =~= slap_help());
        r
    }
}

/// Composes the slap message.
pub fn compose_slap(
    author: u64,
    oponent: &str,
    action: &str,
    object: &str,
    body_part: &str,
    result: &str,
) -> (r: String)
    ensures
        r@ == slap_text(author as nat, oponent@, action@, object@, body_part@, result@),
{
    let mut r = String::new();
    push_mention(&mut r, author);
    r.append(" ");
    r.append(action);
    r.append(" ");
    r.append(oponent);
    r.append(" with ");
    r.append(object);
    r.append(" ");
    r.append(body_part);
    r.append(" and ");
    let rv = chars_of(result);
    let pat = chars_of("<@>");
    proof {
        reveal_strlit("<@>");
    }
    let replaced = replace_exec(&rv, &pat, oponent);
    r.append(replaced.as_str());
    assert(r@ =~= slap_text(author as nat, oponent@, action@, object@, body_part@, result@));
    r
}

/// What a composed slap message amounts to: the text to send and the slap
/// to count.
pub fn settle_slap(author: u64, oponent: &str, text: String) -> (r: SlapOutcome)
    requires
        slap_countable(text@, oponent@),
    ensures
        slap_outcome(author as nat, oponent@, text@, r),
{
    let tv = chars_of(text.as_str());
    let bang = chars_of("!!!");
    proof {
        reveal_strlit("!!!");
        reveal_strlit("");
    }
    let marked = contains_exec(&tv, &bang);
    let shown = replace_exec(&tv, &bang, "");
    assert(""@ =~= Seq::<char>::empty());
    if marked {
        SlapOutcome { text: shown, record: None }
    } else {
        let ov = chars_of(oponent);
        match victim_bounds(&ov) {
            Some((a, b)) => match parse_i64(&ov, a, b) {
                Some(target) => SlapOutcome { text: shown, record: Some((author as i64, target)) },
                None => SlapOutcome { text: shown, record: None },
            },
            None => SlapOutcome { text: shown, record: None },
        }
    }
}

/// Where the victim's id lies in `v` (see `victim_id`).
fn victim_bounds(v: &Vec<char>) -> (r: Option<(usize, usize)>)
    ensures
        r is None <==> victim_id(v@) is None,
        r matches Some(b) ==> b.0 <= b.1 <= v@.len() && victim_id(v@) == Some(
            v@.subrange(b.0 as int, b.1 as int),
        ),
{
    let n = v.len();
    if n == 0 {
        return None;
    }
    let first = v[0] as u32;
    let start: usize = if 0x80 <= first && first < 0x800 {
        1
    } else if n >= 2 && first < 0x80 && (v[1] as u32) < 0x80 {
        2
    } else {
        return None;
    };
    if start <= n - 1 && (v[n - 1] as u32) < 0x80 {
        Some((start, n - 1))
    } else {
        None
    }
}

/// Lists, in increasing order and once each, the authors of `messages`
/// that are not bots.
pub fn candidates(messages: &Vec<(u64, bool)>) -> (r: Vec<u64>)
    ensures
        candidates_of(messages@, r@),
{
    let mut ids: Vec<u64> = Vec::new();
    let mut k: usize = 0;
    while k < messages.len()
        invariant
            k <= messages.len(),
            candidates_of(messages@.take(k as int), ids@),
        decreases messages.len() - k,
    {
        let (id, bot) = messages[k];
        let ghost before = ids@;
        proof {
            assert forall|x: u64|
                #![trigger wrote(messages@.take(k + 1), x)]
                wrote(messages@.take(k + 1), x) <==> (wrote(messages@.take(k as int), x)
                    || messages@[k as int] == (x, false)) by {
                lemma_wrote_step(messages@, k as int, x);
            }
        }
        if !bot {
            // find the place of `id` among the sorted ids
            let mut p: usize = 0;
            while p < ids.len() && ids[p] < id
                invariant
                    p <= ids.len(),
                    ids@ == before,
                    forall|j: int| 0 <= j < p ==> ids@[j] < id,
                decreases ids.len() - p,
            {
                p = p + 1;
            }
            if p < ids.len() && ids[p] == id {
                // already listed
                assert(ids@.contains(id));
                assert forall|x: u64| #![trigger ids@.contains(x)] ids@.contains(x) <==> wrote(messages@.take(k + 1), x) by {
                    assert(wrote(messages@.take(k + 1), x) <==> (wrote(messages@.take(k as int), x) || messages@[k as int] == (x, false)));
                }
            } else {
                ids.insert(p, id);
                assert forall|a: int, b: int| 0 <= a < b < ids@.len() implies ids@[a] < ids@[b] by {
                    if b < p {
                        assert(ids@[a] == before[a] && ids@[b] == before[b]);
                    } else if b == p {
                        assert(ids@[a] == before[a]);
                    } else if a < p {
                        assert(ids@[a] == before[a] && ids@[b] == before[b - 1]);
                        assert(before[b - 1] > id || b - 1 == p);
                    } else if a == p {
                        assert(ids@[b] == before[b - 1]);
                        assert(before[p as int] > id);
                    } else {
                        assert(ids@[a] == before[a - 1] && ids@[b] == before[b - 1]);
                    }
                }
                proof {
                    assert forall|x: u64| ids@.contains(x) <==> (before.contains(x) || x == id) by {
                        if ids@.contains(x) {
                            let j = choose|j: int| 0 <= j < ids@.len() && ids@[j] == x;
                            if j < p {
                                assert(before[j] == x);
                            } else if j > p {
                                assert(before[j - 1] == x);
                            }
                        }
                        if before.contains(x) {
                            let j = choose|j: int| 0 <= j < before.len() && before[j] == x;
                            if j < p {
                                assert(ids@[j] == x);
                            } else {
                                assert(ids@[j + 1] == x);
                            }
                        }
                        if x == id {
                            assert(ids@[p as int] == x);
                        }
                    }
                    assert(messages@[k as int] == (id, false));
                    assert forall|x: u64| #![trigger ids@.contains(x)] ids@.contains(x) <==> wrote(messages@.take(k + 1), x) by {
                        assert(wrote(messages@.take(k + 1), x) <==> (wrote(messages@.take(k as int), x) || messages@[k as int] == (x, false)));
                        assert(before.contains(x) <==> wrote(messages@.take(k as int), x));
                        assert(ids@.contains(x) <==> (before.contains(x) || x == id));
                    }
                }
            }
        } else {
            assert forall|x: u64| #![trigger ids@.contains(x)] ids@.contains(x) <==> wrote(messages@.take(k + 1), x) by {
                assert(wrote(messages@.take(k + 1), x) <==> (wrote(messages@.take(k as int), x) || messages@[k as int] == (x, false)));
            }
        }
        k = k + 1;
    }
    assert(messages@.take(messages@.len() as int) =~= messages@);
    ids
}

impl SlapCommand {
    /// What the router needs to know of the command: its help lines and
    /// its trigger words.
    pub fn entry(&self) -> (r: crate::commands::CommandEntry)
        ensures
            r.matches@ == self.trigger_words(),
            !r.mention_is,
            crate::text::views(r.help@) == slap_help(),
    {
        let help: Vec<&'static str> = slap_help_lines();
        proof {
            assert(crate::text::views(help@) =~= slap_help());
        }
        crate::commands::CommandEntry {
            help,
            matches: crate::commands::copy_words(&self.matches),
            mention_is: false,
        }
    }

    /// The command with the words of `config`, triggered by the names of
    /// its kinds of request, with an empty cache of names.
    pub fn new(config: SlapConfig) -> (r: SlapCommand)
        ensures
            views(r.trigger_words()) == slap_words(),
            r.words() == config,
            r.names().wf(),
            forall|i: int|
                0 <= i < 20 ==> (#[trigger] r.names().slots()[i]).timestamp == 0 && is_default(
                    r.names().slots()[i].value.key,
                ) && is_default(r.names().slots()[i].value.value),
    {
        let kinds = SubCommand::iter();
        let mut matches: Vec<&'static str> = Vec::new();
        let mut i: usize = 0;
        let mut kinds = kinds;
        let ghost all = kinds@;
        while kinds.len() > 0
            invariant
                i + kinds@.len() == 6,
                kinds@ == all.skip(i as int),
                all.len() == 6,
                forall|j: int| 0 <= j < 6 ==> subcommand_name(#[trigger] all[j]) == slap_words()[j],
                views(matches@) == slap_words().take(i as int),
            decreases kinds.len(),
        {
            let kind = kinds.remove(0);
            assert(kind == all[i as int]);
            let name = kind.into();
            let ghost before = matches@;
            matches.push(name);
            assert(views(matches@) =~= views(before).push(name@));
            i = i + 1;
            assert(views(matches@) =~= slap_words().take(i as int));
            assert(kinds@ =~= all.skip(i as int));
        }
        assert(slap_words().take(6) =~= slap_words());
        SlapCommand { cache: Cache::new(), matches, config }
    }

    /// The words a request for this command starts with.
    pub closed spec fn trigger_words(&self) -> Seq<&'static str> {
        self.matches@
    }

    /// The words slap messages are made of.
    pub closed spec fn words(&self) -> SlapConfig {
        self.config
    }

    /// The cache of user names.
    pub closed spec fn names(&self) -> Cache<i64, String, 20> {
        self.cache
    }

    /// Whether a request is meant for this command.
    pub fn matches(&self, message: &str) -> (r: bool)
        ensures
            r == starts_with_any(self.trigger_words(), message@),
    {
        matches_any(&self.matches, message)
    }

    /// A slap of `oponent` with words picked at random from the command's
    /// words; `None` when the pick leads to a slap the command cannot count
    /// (the victim's id cannot be cut out of `oponent`, or is not a number
    /// that fits in an `i64`) or a list of words is empty: the command
    /// stops on those.
    pub fn slap(&self, oponent: &str, author: u64) -> (r: Option<SlapOutcome>)
        ensures
            !has_words(self.words()) ==> r is None,
            has_words(self.words()) ==> picked_slap(self.words(), author as nat, oponent@, r),
    {
        if self.config.actions.len() == 0 || self.config.objects.len() == 0
            || self.config.body_parts.len() == 0 || self.config.results.len() == 0 {
            return None;
        }
        let action = pick(&self.config.actions);
        let object = pick(&self.config.objects);
        let body_part = pick(&self.config.body_parts);
        let result = pick(&self.config.results);
        let text = compose_slap(
            author,
            oponent,
            action.as_str(),
            object.as_str(),
            body_part.as_str(),
            result.as_str(),
        );
        let tv = chars_of(text.as_str());
        let bang = chars_of("!!!");
        let marked = contains_exec(&tv, &bang);
        let ov = chars_of(oponent);
        if !marked {
            let ghost (a, o, b, x) = (*action, *object, *body_part, *result);
            proof {
                reveal_strlit("!!!");
                assert(picks(self.words(), a, o, b, x));
            }
            let countable = match victim_bounds(&ov) {
                Some((lo, hi)) => parse_i64(&ov, lo, hi).is_some(),
                None => false,
            };
            if !countable {
                assert(slap_ends(author as nat, oponent@, a@, o@, b@, x@, None));
                return None;
            }
        }
        proof {
            reveal_strlit("!!!");
        }
        let ghost (a, o, b, x) = (*action, *object, *body_part, *result);
        assert(picks(self.words(), a, o, b, x));
        let out = settle_slap(author, oponent, text);
        let r = Some(out);
        assert(slap_ends(author as nat, oponent@, a@, o@, b@, x@, r));
        r
    }

    /// A slap of a user picked at random among the authors of `messages`
    /// (pairs of author and whether the author is a bot) that are not
    /// bots; `None` when there is none, or when the slap cannot go ahead
    /// (see `slap`).
    pub fn random(&self, messages: &Vec<(u64, bool)>, author: u64) -> (r: Option<SlapOutcome>)
        ensures
            (forall|id: u64| !#[trigger] wrote(messages@, id)) ==> r is None,
            r is Some ==> exists|id: u64|
                #[trigger] wrote(messages@, id) && has_words(self.words()) && picked_slap(
                    self.words(),
                    author as nat,
                    mention(id as nat),
                    r,
                ),
            (exists|id: u64| #[trigger] wrote(messages@, id)) && has_words(self.words()) ==> exists|
                id: u64,
            |
                #[trigger] wrote(messages@, id) && picked_slap(
                    self.words(),
                    author as nat,
                    mention(id as nat),
                    r,
                ),
    {
        let users = candidates(messages);
        if users.len() == 0 {
            assert forall|id: u64| !#[trigger] wrote(messages@, id) by {
                assert(!users@.contains(id));
            }
            return None;
        }
        let id = *pick(&users);
        assert(wrote(messages@, id));
        let mut oponent = String::new();
        push_mention(&mut oponent, id);
        proof {
            reveal_strlit("<@");
            reveal_strlit(">");
            assert(oponent@[0] == '<');
        }
        self.slap(oponent.as_str(), author)
    }

    /// The answer to a request for help.
    pub fn help(&self) -> (r: String)
        ensures
            r@ == "Usage: slap <oponent>"@,
    {
        crate::text::string_from("Usage: slap <oponent>")
    }

    /// The statistics of a user: slaps given and received.
    pub fn stats(&self, author: u64, given: i64, received: i64) -> (r: String)
        ensures
            r@ == stats_text(author as nat, given as int, received as int),
    {
        let mut r = String::new();
        push_mention(&mut r, author);
        r.append(" has slapped ");
        push_signed_decimal(&mut r, given);
        r.append(" people, and have been slapped ");
        push_signed_decimal(&mut r, received);
        r.append(" times");
        assert(r@ =~= stats_text(author as nat, given as int, received as int));
        r
    }

    /// The name cached for user `id`, if any (its use is recorded).
    pub fn cached_name(&mut self, id: i64) -> (r: Option<String>)
        requires
            old(self).names().wf(),
        ensures
            lookup(old(self).names().slots(), id, r, final(self).names().slots()),
            final(self).words() == old(self).words(),
            final(self).trigger_words() == old(self).trigger_words(),
            final(self).names().wf(),
    {
        proof {
            broadcast use vstd::laws_eq::group_laws_eq;
        }
        self.cache.get(id)
    }

    /// Remembers the name of user `id`.
    pub fn remember_name(&mut self, id: i64, name: String)
        requires
            old(self).names().wf(),
        ensures
            store(old(self).names().slots(), id, name, final(self).names().slots()),
            final(self).words() == old(self).words(),
            final(self).trigger_words() == old(self).trigger_words(),
            final(self).names().wf(),
    {
        self.cache.set(id, name);
    }

    /// The leader board of the top slappers and the most slapped.
    pub fn leaderboard(&self, slappers: &Vec<(String, i32)>, slappees: &Vec<(String, i32)>) -> (r:
        String)
        ensures
            r@ == board_text(slappers@, slappees@),
    {
        let top = board(slappers);
        let bottom = board(slappees);
        let mut r = String::new();
        r.append("```Top 3 Slappers:\n\n");
        r.append(top.as_str());
        r.append(" \n\nTop 3 Slapped:\n\n");
        r.append(bottom.as_str());
        r.append("\n\n```");
        r
    }
}

/// The lines of a leader board, joined.
fn board(entries: &Vec<(String, i32)>) -> (r: String)
    ensures
        r@ == join(board_lines(entries@), "\n"@),
{
    let mut lines: Vec<String> = Vec::new();
    let mut i: usize = 0;
    while i < entries.len()
        invariant
            i <= entries.len(),
            string_views(lines@) == board_lines(entries@).take(i as int),
        decreases entries.len() - i,
    {
        let mut line = String::new();
        line.append("  ");
        line.append(entries[i].0.as_str());
        line.append(" with ");
        push_signed_decimal(&mut line, entries[i].1 as i64);
        line.append(" slaps");
        assert(line@ =~= board_line(entries@[i as int].0@, entries@[i as int].1 as int));
        let ghost before = lines@;
        lines.push(line);
        assert(string_views(lines@) =~= string_views(before).push(line@));
        assert(board_lines(entries@).take(i + 1) =~= board_lines(entries@).take(i as int).push(
            board_lines(entries@)[i as int],
        ));
        i = i + 1;
        assert(string_views(lines@) =~= board_lines(entries@).take(i as int));
    }
    assert(board_lines(entries@).take(entries@.len() as int) =~= board_lines(entries@));
    join_strings(&lines, "\n")
}

} // verus!
