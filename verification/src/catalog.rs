//! Helpers for the game-descriptor catalog, the JSON-backed collaborator
//! of the container format. The catalog itself is external; this module
//! holds the pure string rules it relies on: sort-title sanitization and
//! the blank-marker convention for optional translated titles.

use vstd::prelude::*;

verus! {

/// What `str::to_lowercase` returns, as a function of the characters
/// alone.
pub uninterp spec fn lower_of(s: Seq<char>) -> Seq<char>;

/// Relies on str::to_lowercase: the lowercase mapping of a string,
/// depending on its characters alone; the characters are handed out one
/// by one.
#[verifier::external_body]
fn lower_chars(s: &str) -> (r: Vec<char>)
    ensures
        r@ == lower_of(s@),
{
    s.to_lowercase().chars().collect()
}

/// Relies on String's FromIterator<char>: collecting characters yields
/// the string of exactly those characters.
#[verifier::external_body]
fn chars_to_string(v: &Vec<char>) -> (r: String)
    ensures
        r@ == v@,
{
    v.iter().collect()
}

/// Every space replaced by an underscore; all else kept.
pub open spec fn spec_underscore_spaces(s: Seq<char>) -> Seq<char> {
    s.map_values(
        |c: char|
            if c == ' ' {
                '_'
            } else {
                c
            },
    )
}

/// The sorting key of a title: lowercased, spaces as underscores.
pub fn sanitize_sort_title(title: &str) -> (r: String)
    ensures
        r@ == spec_underscore_spaces(lower_of(title@)),
{
    let lowered = lower_chars(title);
    let mut replaced: Vec<char> = Vec::new();
    let n = lowered.len();
    let mut i: usize = 0;
    while i < n
        invariant
            i <= n,
            n == lowered@.len(),
            replaced@.len() == i,
            forall|j: int| 0 <= j < i ==> replaced@[j] == (if lowered@[j] == ' ' {
                '_'
            } else {
                lowered@[j]
            }),
        decreases n - i,
    {
        let c = lowered[i];
        if c == ' ' {
            replaced.push('_');
        } else {
            replaced.push(c);
        }
        i = i + 1;
    }
    proof {
        assert(replaced@ =~= spec_underscore_spaces(lowered@));
    }
    chars_to_string(&replaced)
}

/// The marker string the catalog stores for an absent translated title.
pub fn blank_title_marker() -> (r: String)
    ensures
        r@ == "\u{30fc}"@,
{
    "\u{30fc}".to_owned()
}

/// The stored form of an optional translated title: the title itself, or
/// the blank marker when absent.
pub fn title_option_to_stored(t: Option<String>) -> (r: String)
    ensures
        match t {
            Some(x) => r@ == x@,
            None => r@ == "\u{30fc}"@,
        },
{
    match t {
        Some(x) => x,
        None => blank_title_marker(),
    }
}

/// The optional translated title a stored string denotes: absent when it
/// is the blank marker, itself otherwise.
pub fn stored_title_to_option(s: String) -> (r: Option<String>)
    ensures
        match r {
            None => s@ == "\u{30fc}"@,
            Some(x) => x@ == s@ && s@ != "\u{30fc}"@,
        },
{
    let blank = blank_title_marker();
    if s == blank {
        None
    } else {
        Some(s)
    }
}

} // verus!
