//! Building blocks for the command grammars.
//!
//! The bot recognises its commands by small patterns: literal words, runs of
//! digits or word characters, the rest of a line. Digits and word characters
//! are the Unicode classes `\d` and `\w` of the `regex` crate; case-blind
//! comparison is the simple case folding that `(?i)` applies.
use vstd::prelude::*;
use crate::text::occurs_at;

verus! {

// ----------------------------------------------------------------------------
// Character classes
// ----------------------------------------------------------------------------

/// Whether `c` is in the Unicode class `\w` of the `regex` crate.
pub uninterp spec fn regex_word_char(c: char) -> bool;

/// Whether `c` is in the Unicode class `\d` (general category
/// `Decimal_Number`) of the `regex` crate.
pub uninterp spec fn regex_digit_char(c: char) -> bool;

/// `regex_syntax::is_word_character`: whether `c` is a Unicode word
/// character, the class that `\w` matches in a pattern. Its result is
/// claimed to be `regex_word_char(c)`, a function of `c` alone; among the
/// ASCII characters the word characters are the letters, the digits and
/// `_`.
#[verifier::external_body]
fn is_word_character(c: char) -> (r: bool)
    ensures
        r == regex_word_char(c),
        (c as u32) < 128 ==> (r <==> is_ascii_word(c)),
{
    regex_syntax::is_word_character(c)
}

/// `regex::Regex::is_match` of the one-character pattern `\d` (anchored
/// at both ends) on the text holding `c` alone: whether `c` is a Unicode
/// decimal digit as the `regex` crate reads `\d`. The pattern is valid, so
/// compiling it does not fail. Its result is claimed to be
/// `regex_digit_char(c)`, a function of `c` alone; among the ASCII
/// characters the digits are `0`-`9`.
#[verifier::external_body]
fn is_digit_character(c: char) -> (r: bool)
    ensures
        r == regex_digit_char(c),
        (c as u32) < 128 ==> (r <==> is_ascii_digit(c)),
{
    let mut buf = [0u8; 4];
    regex::Regex::new(r"\A\d\z").unwrap().is_match(c.encode_utf8(&mut buf))
}

/// The character classes that the command grammars use.
#[derive(Clone, Copy, PartialEq, Eq, Debug)]
pub enum Class {
    /// `\d`
    Digit,
    /// `\w`
    Word,
}

/// Whether `c` is an ASCII word character: a letter, a digit or `_`.
pub open spec fn is_ascii_word(c: char) -> bool {
    is_ascii_digit(c) || ('a' <= c && c <= 'z') || ('A' <= c && c <= 'Z') || c == '_'
}

/// Whether `c` belongs to the class `cls`. Among the ASCII characters the
/// digits are `0`-`9` and the word characters the letters, the digits and
/// `_`; beyond ASCII the classes are those of the `regex` crate.
pub open spec fn in_class(cls: Class, c: char) -> bool {
    if (c as u32) < 128 {
        match cls {
            Class::Digit => is_ascii_digit(c),
            Class::Word => is_ascii_word(c),
        }
    } else {
        match cls {
            Class::Digit => regex_digit_char(c),
            Class::Word => regex_word_char(c),
        }
    }
}

/// Whether `c` belongs to `cls`.
pub fn in_class_exec(cls: Class, c: char) -> (r: bool)
    ensures
        r == in_class(cls, c),
{
    match cls {
        Class::Digit => is_digit_character(c),
        Class::Word => is_word_character(c),
    }
}

/// Whether `c` is an ASCII digit `0`-`9`.
pub open spec fn is_ascii_digit(c: char) -> bool {
    '0' <= c && c <= '9'
}

// ----------------------------------------------------------------------------
// Runs
// ----------------------------------------------------------------------------

/// Length of the longest run of `cls` characters in `s` starting at `i`.
pub open spec fn run_len(s: Seq<char>, i: int, cls: Class) -> nat
    decreases s.len() - i,
{
    if 0 <= i < s.len() && in_class(cls, s[i]) {
        1 + run_len(s, i + 1, cls)
    } else {
        0
    }
}

proof fn lemma_run_len(s: Seq<char>, i: int, e: int, cls: Class)
    requires
        0 <= i <= e <= s.len(),
        forall|k: int| i <= k < e ==> in_class(cls, #[trigger] s[k]),
        e == s.len() || !in_class(cls, s[e]),
    ensures
        run_len(s, i, cls) == e - i,
    decreases e - i,
{
    if i < e {
        lemma_run_len(s, i + 1, e, cls);
    }
}

/// The end of the longest run of `cls` characters in `v` from `i`.
pub fn run_end(v: &Vec<char>, i: usize, cls: Class) -> (e: usize)
    requires
        i <= v.len(),
    ensures
        e == i + run_len(v@, i as int, cls),
        e <= v.len(),
{
    let mut e = i;
    while e < v.len() && in_class_exec(cls, v[e])
        invariant
            i <= e <= v.len(),
            forall|k: int| i <= k < e ==> in_class(cls, #[trigger] v@[k]),
        decreases v.len() - e,
    {
        e = e + 1;
    }
    proof {
        lemma_run_len(v@, i as int, e as int, cls);
    }
    e
}

/// The end of the line that contains position `i`: the first `'\n'` at or
/// after `i`, or the end of `s`. This is how far `.*` reaches.
pub open spec fn line_end(s: Seq<char>, i: int) -> int
    decreases s.len() - i,
{
    if i < 0 || i >= s.len() || s[i] == '\n' {
        if i < 0 { 0 } else if i >= s.len() { s.len() as int } else { i }
    } else {
        line_end(s, i + 1)
    }
}

/// The end of the line that contains position `i`.
pub fn line_end_exec(v: &Vec<char>, i: usize) -> (e: usize)
    requires
        i <= v.len(),
    ensures
        e == line_end(v@, i as int),
        i <= e <= v.len(),
{
    let mut e = i;
    while e < v.len() && v[e] != '\n'
        invariant
            i <= e <= v.len(),
            line_end(v@, i as int) == line_end(v@, e as int),
        decreases v.len() - e,
    {
        e = e + 1;
    }
    e
}

// ----------------------------------------------------------------------------
// Leftmost positions
// ----------------------------------------------------------------------------

/// The least position `p` with `from <= p <= last` that satisfies `ok`.
pub open spec fn first_from(ok: spec_fn(int) -> bool, from: int, last: int) -> Option<int>
    decreases last + 1 - from,
{
    if from > last {
        None
    } else if ok(from) {
        Some(from)
    } else {
        first_from(ok, from + 1, last)
    }
}

/// What `first_from` finds: a position that satisfies `ok` with none
/// before it, or, when it finds none, that no position in range does.
pub proof fn lemma_first_from(ok: spec_fn(int) -> bool, from: int, last: int)
    ensures
        first_from(ok, from, last) matches Some(p) ==> from <= p <= last && ok(p) && forall|q: int|
            from <= q < p ==> !#[trigger] ok(q),
        first_from(ok, from, last) is None ==> forall|q: int| from <= q <= last ==> !#[trigger] ok(q),
    decreases last + 1 - from,
{
    if from <= last {
        lemma_first_from(ok, from + 1, last);
    }
}

// ----------------------------------------------------------------------------
// Case-blind literals
// ----------------------------------------------------------------------------

/// Whether `c` equals the ASCII pattern character `p` once case is
/// ignored, as `(?i)` compares (the patterns of the bot are all ASCII):
/// the two cases of a letter, and besides them the long s (U+017F) for `s`
/// and the Kelvin sign (U+212A) for `k`, the only other characters whose
/// simple case folding meets an ASCII letter.
pub open spec fn ci_char_eq(c: char, p: char) -> bool {
    ||| c == p
    ||| ('a' <= p && p <= 'z' && c as u32 + 32 == p as u32)
    ||| ('A' <= p && p <= 'Z' && c as u32 == p as u32 + 32)
    ||| ((p == 's' || p == 'S') && c == '\u{17f}')
    ||| ((p == 'k' || p == 'K') && c == '\u{212a}')
}

/// Whether `c` matches `p` with case ignored.
pub fn ci_char_eq_exec(c: char, p: char) -> (r: bool)
    ensures
        r == ci_char_eq(c, p),
{
    let cu = c as u32;
    let pu = p as u32;
    c == p || ('a' <= p && p <= 'z' && cu + 32 == pu) || ('A' <= p && p <= 'Z' && cu == pu + 32)
        || ((p == 's' || p == 'S') && c == '\u{17f}') || ((p == 'k' || p == 'K') && c
        == '\u{212a}')
}

/// Whether the literal `pat` occurs in `s` at `i`, case ignored.
pub open spec fn ci_occurs_at(s: Seq<char>, i: int, pat: Seq<char>) -> bool {
    &&& 0 <= i
    &&& i + pat.len() <= s.len()
    &&& forall|k: int| 0 <= k < pat.len() ==> ci_char_eq(#[trigger] s[i + k], pat[k])
}

/// Whether the literal `pat` occurs in `v` at `i`, case ignored.
pub fn ci_occurs_at_exec(v: &Vec<char>, i: usize, pat: &Vec<char>) -> (r: bool)
    ensures
        r == ci_occurs_at(v@, i as int, pat@),
{
    if i > v.len() || pat.len() > v.len() - i {
        return false;
    }
    let mut k: usize = 0;
    while k < pat.len()
        invariant
            i + pat.len() <= v.len(),
            k <= pat.len(),
            forall|j: int| 0 <= j < k ==> ci_char_eq(#[trigger] v@[i + j], pat@[j]),
        decreases pat.len() - k,
    {
        if !ci_char_eq_exec(v[i + k], pat[k]) {
            return false;
        }
        k = k + 1;
    }
    true
}

/// Whether `s` as a whole equals `pat` with case ignored.
pub open spec fn ci_equals(s: Seq<char>, pat: Seq<char>) -> bool {
    s.len() == pat.len() && ci_occurs_at(s, 0, pat)
}

/// Whether the literal `pat` occurs in `v` at `i`.
pub fn lit_at(v: &Vec<char>, i: usize, pat: &str) -> (r: bool)
    ensures
        r == occurs_at(v@, i as int, pat@),
{
    let p = crate::text::chars_of(pat);
    crate::text::occurs_at_exec(v, i, &p)
}

} // verus!

verus! {

// ----------------------------------------------------------------------------
// Numbers written in decimal
// ----------------------------------------------------------------------------

/// Whether every character of `s` is an ASCII digit.
pub open spec fn all_ascii_digits(s: Seq<char>) -> bool {
    forall|k: int| 0 <= k < s.len() ==> is_ascii_digit(#[trigger] s[k])
}

/// The number that the ASCII digits `s` write in decimal.
pub open spec fn digits_value(s: Seq<char>) -> nat
    decreases s.len(),
{
    if s.len() == 0 {
        0
    } else {
        digits_value(s.drop_last()) * 10 + ((s.last() as u32 - '0' as u32) as nat)
    }
}

/// `s` without a leading `+`.
pub open spec fn unsigned_part(s: Seq<char>) -> Seq<char> {
    if s.len() > 0 && s[0] == '+' {
        s.drop_first()
    } else {
        s
    }
}

/// Whether `str::parse::<u64>` accepts `s`: an optional `+`, then a
/// non-empty run of ASCII digits whose value fits in 64 bits.
pub open spec fn parses_u64(s: Seq<char>) -> bool {
    let d = unsigned_part(s);
    d.len() > 0 && all_ascii_digits(d) && digits_value(d) <= u64::MAX
}

/// The number `str::parse::<u64>` reads in `s`.
pub open spec fn u64_value(s: Seq<char>) -> nat {
    digits_value(unsigned_part(s))
}

/// `s` without a leading sign.
pub open spec fn signed_part(s: Seq<char>) -> Seq<char> {
    if s.len() > 0 && (s[0] == '+' || s[0] == '-') {
        s.drop_first()
    } else {
        s
    }
}

/// The number `str::parse::<i64>` reads in `s`.
pub open spec fn i64_value(s: Seq<char>) -> int {
    if s.len() > 0 && s[0] == '-' {
        -(digits_value(signed_part(s)) as int)
    } else {
        digits_value(signed_part(s)) as int
    }
}

/// Whether `str::parse::<i64>` accepts `s`: an optional `+` or `-`, then a
/// non-empty run of ASCII digits, whose value fits in 64 signed bits.
pub open spec fn parses_i64(s: Seq<char>) -> bool {
    let d = signed_part(s);
    d.len() > 0 && all_ascii_digits(d) && i64::MIN <= i64_value(s) <= i64::MAX
}

/// The number that `str::parse::<u64>` reads in `v[lo..hi]`, if it
/// accepts it.
pub fn parse_u64(v: &Vec<char>, lo: usize, hi: usize) -> (r: Option<u64>)
    requires
        lo <= hi <= v.len(),
    ensures
        r is Some <==> parses_u64(v@.subrange(lo as int, hi as int)),
        r matches Some(n) ==> n == u64_value(v@.subrange(lo as int, hi as int)),
{
    if lo < hi && v[lo] == '+' {
        assert(v@.subrange(lo as int, hi as int).drop_first() =~= v@.subrange(lo + 1, hi as int));
        parse_digits(v, lo + 1, hi)
    } else {
        parse_digits(v, lo, hi)
    }
}

/// The number that `str::parse::<i64>` reads in `v[lo..hi]`, if it
/// accepts it.
pub fn parse_i64(v: &Vec<char>, lo: usize, hi: usize) -> (r: Option<i64>)
    requires
        lo <= hi <= v.len(),
    ensures
        r is Some <==> parses_i64(v@.subrange(lo as int, hi as int)),
        r matches Some(n) ==> n == i64_value(v@.subrange(lo as int, hi as int)),
{
    let ghost s = v@.subrange(lo as int, hi as int);
    let signed = lo < hi && (v[lo] == '+' || v[lo] == '-');
    let negative = lo < hi && v[lo] == '-';
    let start = if signed {
        lo + 1
    } else {
        lo
    };
    assert(signed_part(s) =~= v@.subrange(start as int, hi as int));
    match parse_digits(v, start, hi) {
        Some(m) => {
            if negative {
                if m <= 9223372036854775807u64 {
                    Some(-(m as i64))
                } else if m == 9223372036854775808u64 {
                    Some(-9223372036854775807i64 - 1)
                } else {
                    None
                }
            } else if m <= 9223372036854775807u64 {
                Some(m as i64)
            } else {
                None
            }
        },
        None => None,
    }
}

/// The value of the decimal digits `v[lo..hi]`, when they are a non-empty
/// run of ASCII digits whose value fits in 64 bits.
fn parse_digits(v: &Vec<char>, lo: usize, hi: usize) -> (r: Option<u64>)
    requires
        lo <= hi <= v.len(),
    ensures
        r is Some <==> ({
            let d = v@.subrange(lo as int, hi as int);
            d.len() > 0 && all_ascii_digits(d) && digits_value(d) <= u64::MAX
        }),
        r matches Some(n) ==> n == digits_value(v@.subrange(lo as int, hi as int)),
{
    let ghost s = v@.subrange(lo as int, hi as int);
    if lo == hi {
        return None;
    }
    let mut acc: u64 = 0;
    let mut i = lo;
    let mut overflow = false;
    while i < hi
        invariant
            lo <= i <= hi <= v.len(),
            s == v@.subrange(lo as int, hi as int),
            all_ascii_digits(s.take(i - lo)),
            !overflow ==> acc == digits_value(s.take(i - lo)),
            overflow ==> digits_value(s.take(i - lo)) > u64::MAX,
        decreases hi - i,
    {
        let c = v[i];
        if !('0' <= c && c <= '9') {
            assert(s[i - lo] == c);
            return None;
        }
        let d = (c as u32 - '0' as u32) as u64;
        proof {
            let t = s.take(i - lo + 1);
            assert(t.drop_last() =~= s.take(i - lo));
            assert(t.last() == c);
            assert(all_ascii_digits(t)) by {
                assert forall|k: int| 0 <= k < t.len() implies is_ascii_digit(#[trigger] t[k]) by {
                    if k < t.len() - 1 {
                        assert(t[k] == s.take(i - lo)[k]);
                    }
                }
            }
        }
        if !overflow {
            match acc.checked_mul(10) {
                Some(a) => match a.checked_add(d) {
                    Some(b) => {
                        acc = b;
                    },
                    None => {
                        overflow = true;
                    },
                },
                None => {
                    overflow = true;
                },
            }
        }
        i = i + 1;
    }
    assert(s.take(hi - lo) =~= s);
    if overflow {
        None
    } else {
        Some(acc)
    }
}

} // verus!

verus! {

// ----------------------------------------------------------------------------
// Mentions of users: `<@(\d+?)>`
// ----------------------------------------------------------------------------

/// The length of a mention of a user at `p`: `<@`, digits, `>`.
pub open spec fn user_mention_len(s: Seq<char>, p: int) -> int {
    (3 + run_len(s, p + 2, Class::Digit)) as int
}

/// A mention of a user starts at `p`.
pub open spec fn user_mention_at(s: Seq<char>) -> spec_fn(int) -> bool {
    |p: int|
        occurs_at(s, p, "<@"@) && run_len(s, p + 2, Class::Digit) > 0 && occurs_at(
            s,
            p + 2 + run_len(s, p + 2, Class::Digit),
            ">"@,
        )
}

/// The first mention of a user in `s`, as the pattern `<@(\d+?)>` finds
/// it: its start, if there is one.
pub open spec fn first_user_mention(s: Seq<char>) -> Option<int> {
    first_from(user_mention_at(s), 0, s.len() as int)
}

/// The first mention of a user in `v`: its bounds.
pub fn find_user_mention(v: &Vec<char>) -> (r: Option<(usize, usize)>)
    ensures
        r is None <==> first_user_mention(v@) is None,
        r matches Some(b) ==> first_user_mention(v@) == Some(b.0 as int) && b.1 == b.0
            + user_mention_len(v@, b.0 as int) && b.1 <= v@.len(),
{
    let mut p: usize = 0;
    loop
        invariant
            p <= v.len(),
            first_from(user_mention_at(v@), 0, v@.len() as int) == first_from(
                user_mention_at(v@),
                p as int,
                v@.len() as int,
            ),
        decreases v.len() - p,
    {
        proof {
            reveal_strlit("<@");
            reveal_strlit(">");
        }
        if lit_at(v, p, "<@") {
            let e = run_end(v, p + 2, Class::Digit);
            if e > p + 2 && lit_at(v, e, ">") {
                assert(user_mention_at(v@)(p as int));
                return Some((p, e + 1));
            }
        }
        assert(!user_mention_at(v@)(p as int));
        if p == v.len() {
            assert(first_from(user_mention_at(v@), p + 1, v@.len() as int) is None);
            return None;
        }
        p = p + 1;
    }
}

} // verus!
