//! What the bot stores: slap counts and "who is" messages.
use vstd::prelude::*;

verus! {

/// How often `author` slapped `target`.
#[derive(Clone, Copy, Debug, PartialEq, Eq)]
pub struct SlapStats {
    pub author: i64,
    pub target: i64,
    pub count: i64,
}

/// A user and a total of slaps.
#[derive(Clone, Copy, Debug, PartialEq, Eq)]
pub struct SlapCount {
    pub author: i64,
    pub count: i32,
}

/// The message saved for a user.
#[derive(Clone, Debug)]
pub struct Whois {
    pub target: i64,
    pub message: String,
}

impl Whois {
    /// The saved message for `target`, or, when none was found, the
    /// message that says so.
    pub fn or_unknown(target: i64, found: Option<Whois>) -> (r: Whois)
        ensures
            found is Some ==> r == found->0,
            found is None ==> r.target == target && r.message@ == "No whois message set"@,
    {
        match found {
            Some(w) => w,
            None => {
                proof {
                    reveal_strlit("No whois message set");
                }
                Whois { target, message: crate::text::string_from("No whois message set") }
            },
        }
    }
}

/// The total number of slaps that a sum over the stored counts gives:
/// zero when there is nothing to sum.
pub fn total_or_zero(total: Option<i32>) -> (r: i64)
    ensures
        r == match total {
            Some(t) => t as int,
            None => 0,
        },
{
    match total {
        Some(t) => t as i64,
        None => 0,
    }
}

} // verus!
