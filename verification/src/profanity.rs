//! The profanity filter: a message that contains one of the configured
//! bad words (regular expressions, case ignored) is deleted, and the bot
//! repeats it with every bad word replaced by one of the replacements,
//! picked at random.
use vstd::prelude::*;
use crate::text::{join, join_strings, mention, push_mention, string_views};
use crate::random::below;

verus! {

/// The bad words (regular expressions) and their replacements.
#[derive(Clone, Debug)]
pub struct ProfanityConfig {
    pub bad_words: Vec<String>,
    pub replacements: Vec<String>,
}

/// Whether `pattern` is a regular expression that `regex::Regex::new`
/// accepts.
pub uninterp spec fn regex_compiles(pattern: Seq<char>) -> bool;

/// Whether the regular expression `pattern` matches somewhere in `text`.
pub uninterp spec fn regex_finds(pattern: Seq<char>, text: Seq<char>) -> bool;

/// `text` with every match of `pattern` replaced by `rep` (in which `$`
/// names a group of the match), as `regex::Regex::replace_all` does it.
pub uninterp spec fn regex_replaced(pattern: Seq<char>, text: Seq<char>, rep: Seq<char>) -> Seq<
    char,
>;

/// `regex::Regex::new(pattern)`, asked whether it succeeds. The answer is
/// claimed to be `regex_compiles(pattern)`, a function of the pattern.
#[verifier::external_body]
fn compiles(pattern: &str) -> (r: bool)
    ensures
        r == regex_compiles(pattern@),
{
    regex::Regex::new(pattern).is_ok()
}

/// `regex::Regex::is_match` of the compiled `pattern` on `text`. The answer
/// is claimed to be `regex_finds(pattern, text)`, a function of the two.
#[verifier::external_body]
fn is_match(pattern: &str, text: &str) -> (r: bool)
    requires
        regex_compiles(pattern@),
    ensures
        r == regex_finds(pattern@, text@),
{
    regex::Regex::new(pattern).unwrap().is_match(text)
}

/// `regex::Regex::replace_all` of the compiled `pattern` on `text` with
/// `rep`. The text is claimed to be `regex_replaced(pattern, text, rep)`,
/// a function of the three.
#[verifier::external_body]
fn replace_all(pattern: &str, text: &str, rep: &str) -> (r: String)
    requires
        regex_compiles(pattern@),
    ensures
        r@ == regex_replaced(pattern@, text@, rep@),
{
    regex::Regex::new(pattern).unwrap().replace_all(text, rep).to_string()
}

/// The regular expression that finds any of `bad_words`, case ignored:
/// `(?i)(W1|W2|...)`.
pub open spec fn profanity_pattern(bad_words: Seq<String>) -> Seq<char> {
    "(?i)("@ + join(string_views(bad_words), "|"@) + ")"@
}

/// The message the bot sends in place of a filtered one.
pub open spec fn filtered_text(author: nat, cleaned: Seq<char>) -> Seq<char> {
    "I am sure "@ + mention(author) + " meant to say: "@ + cleaned
}

/// The outcome of the filter on `content` with the replacement `rep`: the
/// message to send in place of it when it holds a bad word.
pub open spec fn filter_outcome(
    author: nat,
    content: Seq<char>,
    pattern: Seq<char>,
    rep: Seq<char>,
    r: Option<String>,
) -> bool {
    if regex_finds(pattern, content) {
        r matches Some(text) && text@ == filtered_text(author, regex_replaced(pattern, content, rep))
    } else {
        r is None
    }
}

/// Builds `profanity_pattern(bad_words)`.
pub fn pattern_of(bad_words: &Vec<String>) -> (r: String)
    ensures
        r@ == profanity_pattern(bad_words@),
{
    let mut r = String::new();
    r.append("(?i)(");
    let body = join_strings(bad_words, "|");
    r.append(body.as_str());
    r.append(")");
    r
}

/// The filter, given a pattern that compiles and at least two
/// replacements: the replacement is picked at random among all but the
/// last; the message to send when `content` holds a bad word.
pub fn profanity_filter(content: &str, author: u64, config: &ProfanityConfig) -> (r: Option<String>)
    requires
        config.replacements@.len() >= 2,
        regex_compiles(profanity_pattern(config.bad_words@)),
    ensures
        exists|n: int|
            0 <= n < config.replacements@.len() - 1 && #[trigger] filter_outcome(
                author as nat,
                content@,
                profanity_pattern(config.bad_words@),
                config.replacements@[n]@,
                r,
            ),
{
    let n = below(config.replacements.len() - 1);
    let pattern = pattern_of(&config.bad_words);
    if is_match(pattern.as_str(), content) {
        let cleaned = replace_all(pattern.as_str(), content, config.replacements[n].as_str());
        let mut text = String::new();
        text.append("I am sure ");
        push_mention(&mut text, author);
        text.append(" meant to say: ");
        text.append(cleaned.as_str());
        assert(text@ =~= filtered_text(author as nat, cleaned@));
        let r = Some(text);
        assert(filter_outcome(
            author as nat,
            content@,
            profanity_pattern(config.bad_words@),
            config.replacements@[n as int]@,
            r,
        ));
        r
    } else {
        let r: Option<String> = None;
        assert(filter_outcome(
            author as nat,
            content@,
            profanity_pattern(config.bad_words@),
            config.replacements@[n as int]@,
            r,
        ));
        r
    }
}

/// Whether the filter can run with `config`: at least two replacements,
/// and bad words that make a valid regular expression.
pub open spec fn filter_runs(config: ProfanityConfig) -> bool {
    config.replacements@.len() >= 2 && regex_compiles(profanity_pattern(config.bad_words@))
}

/// The filter for any configuration: `None` when it cannot run (too few
/// replacements, or bad words that make no valid regular expression; the
/// filter stops on those), else the outcome of `profanity_filter`.
pub fn screen(content: &str, author: u64, config: &ProfanityConfig) -> (r: Option<Option<String>>)
    ensures
        r is None <==> !filter_runs(*config),
        r matches Some(out) ==> exists|n: int|
            0 <= n < config.replacements@.len() - 1 && #[trigger] filter_outcome(
                author as nat,
                content@,
                profanity_pattern(config.bad_words@),
                config.replacements@[n]@,
                out,
            ),
{
    if config.replacements.len() < 2 {
        return None;
    }
    let pattern = pattern_of(&config.bad_words);
    if !compiles(pattern.as_str()) {
        return None;
    }
    Some(profanity_filter(content, author, config))
}

} // verus!
