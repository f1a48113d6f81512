//! The content filter: a fixed keyword table, a shouting check and a
//! repeated-character check, applied in that order.
use vstd::prelude::*;
use crate::text::{alpha_char, char_vec, contains_text, has_infix, is_alpha, is_upper, lower_of, lowercase, upper_char};

verus! {

/// How serious a moderation event is.
#[derive(Clone, Copy, Debug, PartialEq, Eq, Structural)]
pub enum Severity {
    Low,
    Medium,
    High,
    Critical,
}

/// The number of upper-case characters in `s`.
pub open spec fn upper_count(s: Seq<char>) -> nat
    decreases s.len(),
{
    if s.len() == 0 {
        0
    } else {
        upper_count(s.drop_last()) + if upper_char(s.last()) { 1nat } else { 0nat }
    }
}

/// The number of alphabetic characters in `s`.
pub open spec fn letter_count(s: Seq<char>) -> nat
    decreases s.len(),
{
    if s.len() == 0 {
        0
    } else {
        letter_count(s.drop_last()) + if alpha_char(s.last()) { 1nat } else { 0nat }
    }
}

/// The first entry of the keyword table found in the lowercased text, with its severity.
pub open spec fn keyword_hit(low: Seq<char>) -> Option<(Seq<char>, Severity)> {
    if has_infix(low, "hate"@) {
        Some(("hate"@, Severity::High))
    } else if has_infix(low, "violence"@) {
        Some(("violence"@, Severity::High))
    } else if has_infix(low, "harassment"@) {
        Some(("harassment"@, Severity::High))
    } else if has_infix(low, "bully"@) {
        Some(("bully"@, Severity::Medium))
    } else if has_infix(low, "spam"@) {
        Some(("spam"@, Severity::Low))
    } else if has_infix(low, "scam"@) {
        Some(("scam"@, Severity::Medium))
    } else if has_infix(low, "fake"@) {
        Some(("fake"@, Severity::Low))
    } else if has_infix(low, "misinformation"@) {
        Some(("misinformation"@, Severity::Medium))
    } else {
        None
    }
}

/// More than ten alphabetic characters, of which more than 70% are upper case.
pub open spec fn is_shouting(s: Seq<char>) -> bool {
    let caps = upper_count(s);
    let letters = letter_count(s);
    letters > 10 && 10 * caps > 7 * letters
}

/// Five equal characters other than a space stand in a row from position `i`.
pub open spec fn run_at(s: Seq<char>, i: int) -> bool {
    &&& 0 <= i
    &&& i + 5 <= s.len()
    &&& s[i] != ' '
    &&& s[i + 1] == s[i]
    &&& s[i + 2] == s[i]
    &&& s[i + 3] == s[i]
    &&& s[i + 4] == s[i]
}

/// Some character other than a space is repeated more than three times after itself.
pub open spec fn has_long_run(s: Seq<char>) -> bool {
    exists|i: int| run_at(s, i)
}

pub open spec fn keyword_reason(k: Seq<char>) -> Seq<char> {
    "Content contains inappropriate keyword: "@ + k
}

pub open spec fn shouting_reason() -> Seq<char> {
    "Content appears to be shouting (excessive caps)"@
}

pub open spec fn repetition_reason() -> Seq<char> {
    "Content contains excessive repetitive characters"@
}

/// The verdict of the filter on a text: flagged, the reason, the severity.
pub open spec fn verdict_of(s: Seq<char>) -> (bool, Option<Seq<char>>, Severity) {
    match keyword_hit(lower_of(s)) {
        Some((k, sev)) => (true, Some(keyword_reason(k)), sev),
        None => if is_shouting(s) {
            (true, Some(shouting_reason()), Severity::Low)
        } else if has_long_run(s) {
            (true, Some(repetition_reason()), Severity::Low)
        } else {
            (false, None, Severity::Low)
        },
    }
}

/// The view of an optional text.
pub open spec fn opt_view(o: Option<String>) -> Option<Seq<char>> {
    match o {
        Some(s) => Some(s@),
        None => None,
    }
}

fn keyword_verdict(k: &str, sev: Severity) -> (r: (bool, Option<String>, Severity))
    ensures
        r.0,
        opt_view(r.1) == Some(keyword_reason(k@)),
        r.2 == sev,
{
    let mut reason = String::from_str("Content contains inappropriate keyword: ");
    reason.append(k);
    (true, Some(reason), sev)
}

/// The number of characters of `s` that are upper case, and that are alphabetic.
fn letter_counts(s: &Vec<char>) -> (r: (usize, usize))
    ensures
        r.0 == upper_count(s@),
        r.1 == letter_count(s@),
{
    let mut caps: usize = 0;
    let mut letters: usize = 0;
    let mut i: usize = 0;
    while i < s.len()
        invariant
            i <= s.len(),
            caps == upper_count(s@.take(i as int)),
            letters == letter_count(s@.take(i as int)),
            caps <= i,
            letters <= i,
        decreases s.len() - i,
    {
        proof {
            assert(s@.take(i + 1).drop_last() =~= s@.take(i as int));
        }
        if is_upper(s[i]) {
            caps += 1;
        }
        if is_alpha(s[i]) {
            letters += 1;
        }
        i += 1;
    }
    assert(s@.take(s.len() as int) =~= s@);
    (caps, letters)
}

fn long_run(s: &Vec<char>) -> (r: bool)
    ensures
        r == has_long_run(s@),
{
    let mut i: usize = 0;
    while 5 <= s.len() && i <= s.len() - 5
        invariant
            forall|t: int| 0 <= t < i ==> !run_at(s@, t),
        decreases s.len() - i,
    {
        let c = s[i];
        if c != ' ' && s[i + 1] == c && s[i + 2] == c && s[i + 3] == c && s[i + 4] == c {
            assert(run_at(s@, i as int));
            return true;
        }
        i += 1;
    }
    false
}

/// Runs the content filter on a text: the keyword table first (the first hit
/// wins), then the shouting check, then the repeated-character check.
pub fn filter_content(content: &str) -> (r: (bool, Option<String>, Severity))
    ensures
        (r.0, opt_view(r.1), r.2) == verdict_of(content@),
{
    let low_text = lowercase(content);
    let low = char_vec(low_text.as_str());
    if contains_text(&low, "hate") {
        return keyword_verdict("hate", Severity::High);
    }
    if contains_text(&low, "violence") {
        return keyword_verdict("violence", Severity::High);
    }
    if contains_text(&low, "harassment") {
        return keyword_verdict("harassment", Severity::High);
    }
    if contains_text(&low, "bully") {
        return keyword_verdict("bully", Severity::Medium);
    }
    if contains_text(&low, "spam") {
        return keyword_verdict("spam", Severity::Low);
    }
    if contains_text(&low, "scam") {
        return keyword_verdict("scam", Severity::Medium);
    }
    if contains_text(&low, "fake") {
        return keyword_verdict("fake", Severity::Low);
    }
    if contains_text(&low, "misinformation") {
        return keyword_verdict("misinformation", Severity::Medium);
    }
    let chars = char_vec(content);
    let (caps, letters) = letter_counts(&chars);
    if letters > 10 && caps as u128 * 10 > letters as u128 * 7 {
        return (true, Some(String::from_str("Content appears to be shouting (excessive caps)")), Severity::Low);
    }
    if long_run(&chars) {
        return (true, Some(String::from_str("Content contains excessive repetitive characters")), Severity::Low);
    }
    (false, None, Severity::Low)
}

} // verus!
