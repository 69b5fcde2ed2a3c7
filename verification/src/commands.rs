//! Recognising messages addressed to the bot and choosing the commands that
//! answer them.
//!
//! A message is for the bot when it names the bot ("cc" or "chat-cats", case
//! ignored) somewhere. The first such mention is cut out and the rest, trimmed,
//! is the request. "help", "commands" or "what can you do" (case ignored) ask
//! for the list of commands; any other request goes to every command one of
//! whose trigger words it starts with (or, for a command that asks for it,
//! that starts with a mention of a user and ` is`), in the order the
//! commands were added.
use vstd::prelude::*;
use crate::text::{
    chars_of, join, join_strs, occurs_at, push_range, starts_with, starts_with_exec,
    string_of_range, trim, trim_bounds, views,
};
use crate::pattern::{
    ci_equals, ci_occurs_at, ci_occurs_at_exec, first_from, lit_at, run_end, user_mention_at,
    user_mention_len, Class,
};

verus! {

/// The help lines of a command type.
pub trait HelpCommands {
    /// The help lines, as texts.
    spec fn help_view() -> Seq<Seq<char>>;

    /// The help lines.
    fn help() -> (r: Vec<&'static str>)
        ensures
            views(r@) == Self::help_view(),
    ;
}

/// What the router knows of one command: its help lines, the words a
/// request starts with when it is meant for that command, and whether a
/// request that starts with a mention of a user and ` is` is meant for it
/// too.
pub struct CommandEntry {
    pub help: Vec<&'static str>,
    pub matches: Vec<&'static str>,
    pub mention_is: bool,
}

/// Whether `message` starts with a mention of a user, `<@DIGITS>`, and
/// then ` is`.
pub open spec fn starts_with_mention_is(message: Seq<char>) -> bool {
    user_mention_at(message)(0) && occurs_at(message, user_mention_len(message, 0), " is"@)
}

/// Whether `message` starts with a mention of a user and then ` is`.
pub fn mention_is_exec(message: &str) -> (r: bool)
    ensures
        r == starts_with_mention_is(message@),
{
    let v = chars_of(message);
    proof {
        reveal_strlit("<@");
        reveal_strlit(">");
    }
    if !lit_at(&v, 0, "<@") {
        return false;
    }
    let e = run_end(&v, 2, Class::Digit);
    e > 2 && lit_at(&v, e, ">") && lit_at(&v, e + 1, " is")
}

/// Whether a request `t` is meant for the command `e`.
pub open spec fn wants(e: CommandEntry, t: Seq<char>) -> bool {
    starts_with_any(e.matches@, t) || (e.mention_is && starts_with_mention_is(t))
}

/// Whether a request `t` is meant for the command `e`.
pub fn wants_exec(e: &CommandEntry, t: &str) -> (r: bool)
    ensures
        r == wants(*e, t@),
{
    matches_any(&e.matches, t) || (e.mention_is && mention_is_exec(t))
}

/// Whether `message` starts with one of the words of `matches`.
pub open spec fn starts_with_any(matches: Seq<&str>, message: Seq<char>) -> bool {
    exists|k: int| 0 <= k < matches.len() && starts_with(message, #[trigger] matches[k]@)
}

/// Whether `message` starts with one of `matches`: how a command decides
/// that a request is meant for it.
pub fn matches_any(matches: &Vec<&'static str>, message: &str) -> (r: bool)
    ensures
        r == starts_with_any(matches@, message@),
{
    let mut k: usize = 0;
    while k < matches.len()
        invariant
            k <= matches.len(),
            forall|j: int| 0 <= j < k ==> !starts_with(message@, #[trigger] matches@[j]@),
        decreases matches.len() - k,
    {
        if starts_with_exec(message, matches[k]) {
            return true;
        }
        k = k + 1;
    }
    false
}

/// The bot's own names.
pub open spec fn bot_names() -> Seq<Seq<char>> {
    seq!["cc"@, "chat-cats"@]
}

/// The first of `names` that occurs at `i` in `s`, case ignored.
pub open spec fn name_at(s: Seq<char>, names: Seq<Seq<char>>, i: int) -> Option<int> {
    first_from(name_occurs(s, names, i), 0, names.len() - 1)
}

/// Which of `names` occur at `i` in `s`, case ignored.
pub open spec fn name_occurs(s: Seq<char>, names: Seq<Seq<char>>, i: int) -> spec_fn(int) -> bool {
    |k: int| ci_occurs_at(s, i, names[k])
}

/// The positions of `s` where one of `names` occurs.
pub open spec fn mentioned_at(s: Seq<char>, names: Seq<Seq<char>>) -> spec_fn(int) -> bool {
    |i: int| name_at(s, names, i) is Some
}

/// Where the first mention of one of `names` starts in `s`.
pub open spec fn mention_start(s: Seq<char>, names: Seq<Seq<char>>) -> Option<int> {
    first_from(mentioned_at(s, names), 0, s.len() as int)
}

/// `s` without its first mention of one of `names` (`s` itself when there
/// is none).
pub open spec fn strip_mention(s: Seq<char>, names: Seq<Seq<char>>) -> Seq<char> {
    match mention_start(s, names) {
        Some(i) => {
            let k = name_at(s, names, i)->0;
            s.take(i) + s.skip(i + names[k].len())
        },
        None => s,
    }
}

/// The request that a message addressed to the bot makes.
pub open spec fn request_of(s: Seq<char>) -> Seq<char> {
    trim(strip_mention(s, bot_names()))
}

/// Whether a request asks for the list of commands.
pub open spec fn is_help_request(t: Seq<char>) -> bool {
    ||| ci_equals(t, "help"@)
    ||| ci_equals(t, "commands"@)
    ||| ci_equals(t, "what can you do"@)
}

/// The help lines of the first `n` commands, in order.
pub open spec fn help_lines(cmds: Seq<CommandEntry>, n: int) -> Seq<Seq<char>>
    decreases n,
{
    if n <= 0 {
        Seq::empty()
    } else {
        help_lines(cmds, n - 1) + views(cmds[n - 1].help@)
    }
}

/// The list of commands sent to whoever asks for help.
pub open spec fn help_text(cmds: Seq<CommandEntry>) -> Seq<char> {
    join(
        seq![
            "```"@,
            "I can do the following commands:"@,
            "   help - Responds with this message"@,
        ] + help_lines(cmds, cmds.len() as int) + seq!["```"@],
        "\n"@,
    )
}

/// The positions, among the first `n` commands, of those meant for `t`.
pub open spec fn chosen(cmds: Seq<CommandEntry>, t: Seq<char>, n: int) -> Seq<usize>
    decreases n,
{
    if n <= 0 {
        Seq::empty()
    } else if wants(cmds[n - 1], t) {
        chosen(cmds, t, n - 1).push((n - 1) as usize)
    } else {
        chosen(cmds, t, n - 1)
    }
}

/// What to do with a message.
#[derive(Debug)]
pub enum Route {
    /// The message is not addressed to the bot.
    Ignore,
    /// Send this list of commands to the author in private.
    Help(String),
    /// Let these commands (positions in the order they were added) answer.
    Run(Vec<usize>),
}

/// The decision for message text `s` and commands `cmds`.
pub open spec fn route_of(s: Seq<char>, cmds: Seq<CommandEntry>, r: Route) -> bool {
    match r {
        Route::Ignore => mention_start(s, bot_names()) is None,
        Route::Help(text) => mention_start(s, bot_names()) is Some && is_help_request(
            request_of(s),
        ) && text@ == help_text(cmds),
        Route::Run(ids) => mention_start(s, bot_names()) is Some && !is_help_request(
            request_of(s),
        ) && ids@ == chosen(cmds, request_of(s), cmds.len() as int),
    }
}

/// The bot's router: its names and the commands it knows.
pub struct Commands {
    names: Vec<&'static str>,
    commands: Vec<CommandEntry>,
}

impl Commands {
    /// The commands, in the order they were added.
    pub closed spec fn entries(&self) -> Seq<CommandEntry> {
        self.commands@
    }

    /// Only the bot's own names are recognised.
    pub closed spec fn wf(&self) -> bool {
        views(self.names@) == bot_names()
    }

    /// A router that knows no command yet.
    pub fn new() -> (r: Commands)
        ensures
            r.wf(),
            r.entries() == Seq::<CommandEntry>::empty(),
    {
        let r = Commands { names: vec!["cc", "chat-cats"], commands: Vec::new() };
        assert(views(r.names@) =~= bot_names());
        r
    }

    /// Adds a command after those already known.
    pub fn add_command(&mut self, command: CommandEntry) -> (r: &mut Self)
        requires
            old(self).wf(),
        ensures
            r.wf(),
            r.entries() == old(self).entries().push(command),
            *final(self) == *final(r),
    {
        self.commands.push(command);
        self
    }

    /// Where the first mention of a bot name starts in `v`, and which name
    /// it is.
    fn find_mention(&self, v: &Vec<char>) -> (r: Option<(usize, usize)>)
        requires
            self.wf(),
        ensures
            r is None <==> mention_start(v@, bot_names()) is None,
            r matches Some(p) ==> mention_start(v@, bot_names()) == Some(p.0 as int) && name_at(
                v@,
                bot_names(),
                p.0 as int,
            ) == Some(p.1 as int) && p.1 < self.names@.len() && p.0 <= v@.len() && ci_occurs_at(
                v@,
                p.0 as int,
                bot_names()[p.1 as int],
            ),
    {
        let ghost names = bot_names();
        let mut i: usize = 0;
        loop
            invariant
                i <= v.len(),
                self.wf(),
                names == bot_names(),
                first_from(mentioned_at(v@, bot_names()), 0, v@.len() as int) == first_from(mentioned_at(v@, bot_names()), i as int, v@.len() as int),
            decreases v.len() - i,
        {
            assert(self.names@.len() == names.len()) by {
                assert(views(self.names@).len() == self.names@.len());
            }
            let mut k: usize = 0;
            while k < self.names.len()
                invariant
                    k <= self.names.len(),
                    i <= v.len(),
                    first_from(mentioned_at(v@, bot_names()), 0, v@.len() as int) == first_from(
                        mentioned_at(v@, bot_names()),
                        i as int,
                        v@.len() as int,
                    ),
                    self.names@.len() == names.len(),
                    self.wf(),
                    names == bot_names(),
                    first_from(name_occurs(v@, bot_names(), i as int), 0, names.len() - 1) == first_from(name_occurs(v@, bot_names(), i as int), k as int, names.len() - 1),
                decreases self.names.len() - k,
            {
                let p = chars_of(self.names[k]);
                assert(names[k as int] == self.names@[k as int]@) by {
                    assert(views(self.names@)[k as int] == self.names@[k as int]@);
                }
                if ci_occurs_at_exec(v, i, &p) {
                    assert(name_occurs(v@, bot_names(), i as int)(k as int));
                    assert(first_from(name_occurs(v@, bot_names(), i as int), k as int, names.len() - 1) == Some(k as int));
                    assert(name_at(v@, names, i as int) == Some(k as int));
                    assert(mentioned_at(v@, bot_names())(i as int));
                    assert(first_from(mentioned_at(v@, bot_names()), i as int, v@.len() as int) == Some(i as int));
                    return Some((i, k));
                }
                k = k + 1;
            }
            assert(first_from(name_occurs(v@, bot_names(), i as int), k as int, names.len() - 1) is None);
            assert(name_at(v@, names, i as int) is None);
            assert(!mentioned_at(v@, bot_names())(i as int));
            if i == v.len() {
                assert(first_from(mentioned_at(v@, bot_names()), i + 1, v@.len() as int) is None);
                assert(first_from(mentioned_at(v@, bot_names()), i as int, v@.len() as int) is None);
                return None;
            }
            i = i + 1;
        }
    }

    /// The help lines of every command, in order.
    fn all_help(&self) -> (r: Vec<&'static str>)
        ensures
            views(r@) == help_lines(self.commands@, self.commands@.len() as int),
    {
        let mut r: Vec<&'static str> = Vec::new();
        let mut j: usize = 0;
        while j < self.commands.len()
            invariant
                j <= self.commands.len(),
                views(r@) == help_lines(self.commands@, j as int),
            decreases self.commands.len() - j,
        {
            let ghost before = r@;
            let h = &self.commands[j].help;
            let mut k: usize = 0;
            while k < h.len()
                invariant
                    k <= h.len(),
                    *h == self.commands@[j as int].help,
                    r@ == before + h@.take(k as int),
                decreases h.len() - k,
            {
                r.push(h[k]);
                k = k + 1;
                assert(r@ =~= before + h@.take(k as int));
            }
            assert(h@.take(k as int) =~= h@);
            assert(views(r@) =~= help_lines(self.commands@, j as int) + views(h@));
            j = j + 1;
        }
        r
    }

    /// Decides what to do with a message whose text is `content`.
    pub fn handle(&self, content: &str) -> (r: Route)
        requires
            self.wf(),
        ensures
            route_of(content@, self.entries(), r),
    {
        let v = chars_of(content);
        let found = self.find_mention(&v);
        match found {
            None => Route::Ignore,
            Some((i, k)) => {
                let len = chars_of(self.names[k]).len();
                assert(len == bot_names()[k as int].len());
                assert(ci_occurs_at(v@, i as int, bot_names()[k as int]));
                assert(i + len <= v.len());
                assert(self.names@[k as int]@ == bot_names()[k as int]);
                let mut stripped = String::new();
                push_range(&mut stripped, &v, 0, i);
                push_range(&mut stripped, &v, i + len, v.len());
                assert(stripped@ =~= strip_mention(content@, bot_names()));
                let sv = chars_of(stripped.as_str());
                let (lo, hi) = trim_bounds(&sv);
                let t = string_of_range(&sv, lo, hi);
                let tv = chars_of(t.as_str());
                let help = chars_of("help");
                let commands = chars_of("commands");
                let what = chars_of("what can you do");
                let is_help = (tv.len() == help.len() && ci_occurs_at_exec(&tv, 0, &help)) || (
                tv.len() == commands.len() && ci_occurs_at_exec(&tv, 0, &commands)) || (tv.len()
                    == what.len() && ci_occurs_at_exec(&tv, 0, &what));
                if is_help {
                    let mut lines: Vec<&'static str> = vec![
                        "```",
                        "I can do the following commands:",
                        "   help - Responds with this message",
                    ];
                    let mut more = self.all_help();
                    lines.append(&mut more);
                    lines.push("```");
                    let text = join_strs(&lines, "\n");
                    proof {
                        assert(views(lines@) =~= seq![
                            "```"@,
                            "I can do the following commands:"@,
                            "   help - Responds with this message"@,
                        ] + help_lines(self.commands@, self.commands@.len() as int) + seq![
                            "```"@,
                        ]);
                    }
                    Route::Help(text)
                } else {
                    let mut ids: Vec<usize> = Vec::new();
                    let mut j: usize = 0;
                    while j < self.commands.len()
                        invariant
                            j <= self.commands.len(),
                            t@ == request_of(content@),
                            ids@ == chosen(self.commands@, t@, j as int),
                        decreases self.commands.len() - j,
                    {
                        if wants_exec(&self.commands[j], t.as_str()) {
                            ids.push(j);
                        }
                        j = j + 1;
                    }
                    Route::Run(ids)
                }
            },
        }
    }
}

} // verus!

verus! {

/// A copy of a list of words.
pub fn copy_words(v: &Vec<&'static str>) -> (r: Vec<&'static str>)
    ensures
        r@ == v@,
{
    let mut r: Vec<&'static str> = Vec::new();
    let mut i: usize = 0;
    while i < v.len()
        invariant
            i <= v.len(),
            r@ == v@.take(i as int),
        decreases v.len() - i,
    {
        r.push(v[i]);
        i = i + 1;
        assert(r@ =~= v@.take(i as int));
    }
    assert(v@.take(v@.len() as int) =~= v@);
    r
}

proof fn lemma_chosen_prefix(cmds: Seq<CommandEntry>, e: CommandEntry, t: Seq<char>, n: int)
    requires
        0 <= n <= cmds.len(),
    ensures
        chosen(cmds.push(e), t, n) == chosen(cmds, t, n),
    decreases n,
{
    if n > 0 {
        lemma_chosen_prefix(cmds, e, t, n - 1);
        assert(cmds.push(e)[n - 1] == cmds[n - 1]);
    }
}

proof fn lemma_help_prefix(cmds: Seq<CommandEntry>, e: CommandEntry, n: int)
    requires
        0 <= n <= cmds.len(),
    ensures
        help_lines(cmds.push(e), n) == help_lines(cmds, n),
    decreases n,
{
    if n > 0 {
        lemma_help_prefix(cmds, e, n - 1);
        assert(cmds.push(e)[n - 1] == cmds[n - 1]);
    }
}

/// Adding a command leaves the choice among the earlier commands as it
/// was: the new command is chosen after them, when the request is meant
/// for it.
pub proof fn law_added_command_comes_last(cmds: Seq<CommandEntry>, e: CommandEntry, t: Seq<char>)
    ensures
        chosen(cmds.push(e), t, cmds.len() + 1int) == (if wants(e, t) {
            chosen(cmds, t, cmds.len() as int).push(cmds.len() as usize)
        } else {
            chosen(cmds, t, cmds.len() as int)
        }),
{
    lemma_chosen_prefix(cmds, e, t, cmds.len() as int);
    assert(cmds.push(e)[cmds.len() as int] == e);
}

/// Adding a command adds its help lines at the end of the list of
/// commands.
pub proof fn law_help_lists_commands_in_order(cmds: Seq<CommandEntry>, e: CommandEntry)
    ensures
        help_lines(cmds.push(e), cmds.len() + 1int) == help_lines(cmds, cmds.len() as int) + views(
            e.help@,
        ),
{
    lemma_help_prefix(cmds, e, cmds.len() as int);
    assert(cmds.push(e)[cmds.len() as int] == e);
}

/// A request goes to exactly the commands it is meant for, each once, in
/// the order the commands were added.
pub proof fn law_chosen_commands(cmds: Seq<CommandEntry>, t: Seq<char>, n: int)
    requires
        0 <= n <= cmds.len(),
        n <= usize::MAX,
    ensures
        forall|i: int, j: int|
            0 <= i < j < chosen(cmds, t, n).len() ==> chosen(cmds, t, n)[i] < chosen(cmds, t, n)[j],
        forall|k: usize|
            #[trigger] chosen(cmds, t, n).contains(k) <==> (k < n && wants(cmds[k as int], t)),
    decreases n,
{
    if n > 0 {
        law_chosen_commands(cmds, t, n - 1);
        let prev = chosen(cmds, t, n - 1);
        assert forall|k: usize| #[trigger] prev.contains(k) implies k < n - 1 by {}
        if wants(cmds[n - 1], t) {
            let cur = prev.push((n - 1) as usize);
            assert forall|k: usize|
                #[trigger] cur.contains(k) <==> (k < n && wants(cmds[k as int], t)) by {
                if cur.contains(k) {
                    let j = choose|j: int| 0 <= j < cur.len() && cur[j] == k;
                    if j < prev.len() {
                        assert(prev.contains(k));
                    }
                }
                if k < n && wants(cmds[k as int], t) {
                    if k < n - 1 {
                        assert(prev.contains(k));
                        let j = choose|j: int| 0 <= j < prev.len() && prev[j] == k;
                        assert(cur[j] == k);
                    } else {
                        assert(cur[prev.len() as int] == k);
                    }
                }
            }
            assert forall|i: int, j: int| 0 <= i < j < cur.len() implies cur[i] < cur[j] by {
                if j == prev.len() {
                    assert(prev.contains(prev[i]));
                }
            }
        }
    }
}

} // verus!
