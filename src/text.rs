//! Character-level text helpers: character sequences, substring search,
//! case folding and Unicode character classes.
use vstd::prelude::*;
use vstd::std_specs::iter::IteratorSpec;

verus! {

/// What `str::to_lowercase` makes of a text.
pub uninterp spec fn lower_of(s: Seq<char>) -> Seq<char>;

/// Whether `char::is_uppercase` holds of a character.
pub uninterp spec fn upper_char(c: char) -> bool;

/// Whether `char::is_alphabetic` holds of a character.
pub uninterp spec fn alpha_char(c: char) -> bool;

/// Whether `char::is_whitespace` holds of a character.
pub uninterp spec fn space_char(c: char) -> bool;

/// Relies on `str::to_lowercase`: the result depends on the text alone.
#[verifier::external_body]
pub(crate) fn lowercase(s: &str) -> (r: String)
    ensures
        r@ == lower_of(s@),
{
    s.to_lowercase()
}

/// Relies on `char::is_uppercase` (Unicode `Uppercase` property).
#[verifier::external_body]
pub(crate) fn is_upper(c: char) -> (r: bool)
    ensures
        r == upper_char(c),
{
    c.is_uppercase()
}

/// Relies on `char::is_alphabetic` (Unicode `Alphabetic` property).
#[verifier::external_body]
pub(crate) fn is_alpha(c: char) -> (r: bool)
    ensures
        r == alpha_char(c),
{
    c.is_alphabetic()
}

/// Relies on `char::is_whitespace` (Unicode `White_Space` property).
#[verifier::external_body]
pub(crate) fn is_space(c: char) -> (r: bool)
    ensures
        r == space_char(c),
{
    c.is_whitespace()
}

/// The characters of `s`, in order.
pub fn char_vec(s: &str) -> (r: Vec<char>)
    ensures
        r@ == s@,
{
    let mut out: Vec<char> = Vec::new();
    let mut it = s.chars();
    loop
        invariant
            out@ + it.remaining() == s@,
            it.obeys_prophetic_iter_laws(),
            it.decrease() is Some,
        ensures
            out@ == s@,
        decreases it.decrease()->0,
    {
        match it.next() {
            Some(c) => {
                out.push(c);
            },
            None => {
                assert(out@ + it.remaining() =~= out@);
                break;
            },
        }
    }
    out
}

/// `k` occurs in `s` starting at position `i`.
pub open spec fn occurs_at(s: Seq<char>, k: Seq<char>, i: int) -> bool {
    0 <= i && i + k.len() <= s.len() && s.subrange(i, i + k.len()) == k
}

/// `k` occurs somewhere in `s` (the empty text occurs in every text).
pub open spec fn has_infix(s: Seq<char>, k: Seq<char>) -> bool {
    exists|i: int| occurs_at(s, k, i)
}

/// `s` begins with `k`.
pub open spec fn has_prefix(s: Seq<char>, k: Seq<char>) -> bool {
    occurs_at(s, k, 0)
}

fn matches_at(s: &Vec<char>, k: &Vec<char>, i: usize) -> (r: bool)
    requires
        i + k.len() <= s.len(),
    ensures
        r == occurs_at(s@, k@, i as int),
{
    let mut j: usize = 0;
    while j < k.len()
        invariant
            j <= k.len(),
            i + k.len() <= s.len(),
            forall|t: int| 0 <= t < j ==> s@[i + t] == k@[t],
        decreases k.len() - j,
    {
        if s[i + j] != k[j] {
            assert(s@.subrange(i as int, i + k.len())[j as int] != k@[j as int]);
            return false;
        }
        j += 1;
    }
    assert(s@.subrange(i as int, i + k.len()) =~= k@);
    true
}

/// Whether `k` occurs in `s`.
pub fn find_infix(s: &Vec<char>, k: &Vec<char>) -> (r: bool)
    ensures
        r == has_infix(s@, k@),
{
    if k.len() == 0 {
        assert(s@.subrange(0, 0) =~= k@);
        assert(occurs_at(s@, k@, 0));
        return true;
    }
    if k.len() > s.len() {
        return false;
    }
    let last: usize = s.len() - k.len();
    let mut i: usize = 0;
    while i <= last
        invariant
            last == s.len() - k.len(),
            k.len() <= s.len(),
            k.len() > 0,
            i <= last + 1,
            forall|t: int| 0 <= t < i ==> !occurs_at(s@, k@, t),
        decreases last + 1 - i,
    {
        if matches_at(s, k, i) {
            return true;
        }
        i += 1;
    }
    false
}

/// Whether `s` begins with `k`.
pub fn find_prefix(s: &Vec<char>, k: &Vec<char>) -> (r: bool)
    ensures
        r == has_prefix(s@, k@),
{
    if k.len() > s.len() {
        false
    } else {
        matches_at(s, k, 0)
    }
}

/// Whether the text `needle` occurs in `s`.
pub fn contains_text(s: &Vec<char>, needle: &str) -> (r: bool)
    ensures
        r == has_infix(s@, needle@),
{
    let k = char_vec(needle);
    find_infix(s, &k)
}

} // verus!
