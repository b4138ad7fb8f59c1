//! Window-pattern matching.  A pattern is absent (matches anything),
//! the literal `*` (matches anything), a regular expression when it
//! compiles, and otherwise a plain substring test.  The regex engine is
//! the one outside dependency of the decision logic; its two calls are
//! made behind one trusted wrapper whose results are named by
//! uninterpreted spec functions.

use vstd::prelude::*;
use crate::strings::contains_substring;
use crate::strings::str_contains_str;
use crate::strings::str_eq;
use crate::window::Rule;
use crate::window::WindowInfo;
use crate::window::rule_class;
use crate::window::rule_title;

verus! {

/// Whether `regex::Regex::new` accepts the pattern; a function of the
/// pattern alone.
pub uninterp spec fn regex_compiles(pattern: Seq<char>) -> bool;

/// Whether the compiled pattern finds a match anywhere in the text, as
/// `regex::Regex::is_match` decides it; a function of pattern and text
/// alone.
pub uninterp spec fn regex_matches(pattern: Seq<char>, text: Seq<char>) -> bool;

/// Relies on regex::Regex::new and regex::Regex::is_match: whether the
/// pattern compiles, and whether it matches somewhere in the text, are
/// functions of the pattern and the text alone.
#[verifier::external_body]
fn regex_try_match(pattern: &str, text: &str) -> (r: Option<bool>)
    ensures
        r is Some <==> regex_compiles(pattern@),
        r matches Some(b) ==> b == regex_matches(pattern@, text@),
{
    regex::Regex::new(pattern).ok().map(|re| re.is_match(text))
}

/// What a pattern accepts: absent and `*` accept everything, a
/// compilable pattern goes to the regex engine, anything else is a
/// substring test.
pub open spec fn pattern_matches(pattern: Option<Seq<char>>, value: Seq<char>) -> bool {
    match pattern {
        None => true,
        Some(p) => if p == "*"@ {
            true
        } else if regex_compiles(p) {
            regex_matches(p, value)
        } else {
            contains_substring(value, p)
        },
    }
}

/// Decides whether a pattern accepts a value.
pub fn match_pattern(pattern: Option<&str>, value: &str) -> (b: bool)
    ensures
        b == pattern_matches(
            match pattern {
                Some(p) => Some(p@),
                None => None,
            },
            value@,
        ),
{
    match pattern {
        None => true,
        Some(pat) => {
            if str_eq(pat, "*") {
                true
            } else {
                match regex_try_match(pat, value) {
                    Some(b) => b,
                    None => str_contains_str(value, pat),
                }
            }
        },
    }
}

/// A matcher rule accepts a window when both its patterns accept the
/// window's class and title; an absent pattern accepts anything.
pub open spec fn rule_matches(r: Rule, w: WindowInfo) -> bool {
    pattern_matches(rule_class(r), w.class@) && pattern_matches(rule_title(r), w.title@)
}

/// Decides whether a rule accepts a window.
pub fn rule_accepts(r: &Rule, w: &WindowInfo) -> (b: bool)
    ensures
        b == rule_matches(*r, *w),
{
    let class_ok = match &r.class {
        Some(p) => match_pattern(Some(p.as_str()), w.class.as_str()),
        None => true,
    };
    if !class_ok {
        return false;
    }
    match &r.title {
        Some(p) => match_pattern(Some(p.as_str()), w.title.as_str()),
        None => true,
    }
}

} // verus!
