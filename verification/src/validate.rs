//! The domain-syntax rule: one alphanumeric character, then 1 to 60
//! characters drawn from alphanumerics and hyphen, then one alphanumeric
//! character, then a literal dot, then two or more alphabetic characters.
//!
//! A string of that shape contains exactly one dot, so the rule is stated
//! here as: the string splits at its only dot into a label of length 3 to 62
//! (alphanumeric at both ends, alphanumerics and hyphens between) and a
//! purely alphabetic suffix of length at least 2.

use vstd::prelude::*;

verus! {

/// An ASCII letter.
pub open spec fn is_alpha_char(c: char) -> bool {
    (97 <= c as u32 && c as u32 <= 122) || (65 <= c as u32 && c as u32 <= 90)
}

/// An ASCII digit.
pub open spec fn is_digit_char(c: char) -> bool {
    48 <= c as u32 && c as u32 <= 57
}

/// An ASCII letter or digit.
pub open spec fn is_alnum_char(c: char) -> bool {
    is_alpha_char(c) || is_digit_char(c)
}

/// An ASCII letter, digit or hyphen: what may stand in the interior of the
/// label part.
pub open spec fn is_label_char(c: char) -> bool {
    is_alnum_char(c) || c == '-'
}

/// The string `s` decomposes at position `d` as the rule demands: `s[d]` is
/// the dot, the label before it has length 3 to 62 with alphanumeric ends
/// and label characters between, and everything after it is alphabetic and
/// at least 2 characters long.
pub open spec fn spec_valid_split(s: Seq<char>, d: int) -> bool {
    &&& 3 <= d <= 62
    &&& d + 3 <= s.len()
    &&& s[d] == '.'
    &&& is_alnum_char(s[0])
    &&& is_alnum_char(s[d - 1])
    &&& forall|j: int| 1 <= j < d - 1 ==> is_label_char(#[trigger] s[j])
    &&& forall|j: int| d < j < s.len() ==> is_alpha_char(#[trigger] s[j])
}

/// The validation rule: `s` is a syntactically valid domain.
pub open spec fn spec_valid_domain(s: Seq<char>) -> bool {
    exists|d: int| spec_valid_split(s, d)
}

/// A valid split can only sit at the first dot of the string: every
/// character before the dot is drawn from classes that exclude the dot.
proof fn lemma_split_is_first_dot(s: Seq<char>, d: int, fd: int)
    requires
        spec_valid_split(s, d),
        0 <= fd <= d,
        forall|j: int| 0 <= j < fd ==> s[j] != '.',
    ensures
        d == fd || s[fd] != '.',
{
    if fd < d && s[fd] == '.' {
        if fd == 0 {
            assert(is_alnum_char(s[0]));
        } else if fd == d - 1 {
            assert(is_alnum_char(s[d - 1]));
        } else {
            assert(is_label_char(s[fd]));
        }
    }
}

/// Law: validation is a pure decision with no hidden state: it depends on
/// the string's characters alone, so deciding a string a second time —
/// or deciding any string with the same characters — gives the same
/// answer.  The executable decider's contract pins its result to
/// `spec_valid_domain`, so this carries over to repeated calls.
pub proof fn lemma_validation_deterministic(s1: Seq<char>, s2: Seq<char>)
    requires
        s1 == s2,
    ensures
        spec_valid_domain(s1) == spec_valid_domain(s2),
{
}

/// Whether `c` is an ASCII letter.
pub fn alpha_char(c: char) -> (r: bool)
    ensures
        r == is_alpha_char(c),
{
    let v = c as u32;
    (97 <= v && v <= 122) || (65 <= v && v <= 90)
}

/// Whether `c` is an ASCII letter or digit.
pub fn alnum_char(c: char) -> (r: bool)
    ensures
        r == is_alnum_char(c),
{
    let v = c as u32;
    (97 <= v && v <= 122) || (65 <= v && v <= 90) || (48 <= v && v <= 57)
}

/// Whether `c` may stand in the interior of the label part.
pub fn label_char(c: char) -> (r: bool)
    ensures
        r == is_label_char(c),
{
    alnum_char(c) || c == '-'
}

/// Decides the validation rule for an arbitrary string.
///
/// The result is a function of the characters of `s` alone, so any two
/// applications to equal strings decide alike.
pub fn valid_domain_str(s: &str) -> (r: bool)
    ensures
        r == spec_valid_domain(s@),
{
    let n = s.unicode_len();
    // Find the first dot.
    let mut d: usize = 0;
    while d < n && s.get_char(d) != '.'
        invariant
            d <= n,
            n == s@.len(),
            forall|j: int| 0 <= j < d ==> s@[j] != '.',
        decreases n - d,
    {
        d = d + 1;
    }
    if d == n {
        // No dot anywhere: no split position can satisfy the rule.
        assert(!spec_valid_domain(s@)) by {
            if spec_valid_domain(s@) {
                let w = choose|w: int| spec_valid_split(s@, w);
                lemma_split_is_first_dot(s@, w, w);
            }
        }
        return false;
    }
    // From here on `d` is the position of the first dot, so it is the only
    // position where a valid split could sit.
    assert(forall|w: int| spec_valid_split(s@, w) ==> w == d) by {
        assert forall|w: int| spec_valid_split(s@, w) implies w == d by {
            if w < d {
                lemma_split_is_first_dot(s@, w, w);
            } else {
                lemma_split_is_first_dot(s@, w, d as int);
            }
        }
    }
    if d < 3 || d > 62 {
        return false;
    }
    if n - d < 3 {
        return false;
    }
    if !alnum_char(s.get_char(0)) || !alnum_char(s.get_char(d - 1)) {
        return false;
    }
    let mut i: usize = 1;
    while i < d - 1
        invariant
            1 <= i <= d - 1,
            d < n == s@.len(),
            forall|w: int| spec_valid_split(s@, w) ==> w == d,
            forall|j: int| 1 <= j < i ==> is_label_char(#[trigger] s@[j]),
        decreases d - i,
    {
        if !label_char(s.get_char(i)) {
            return false;
        }
        i = i + 1;
    }
    let mut k: usize = d + 1;
    while k < n
        invariant
            d + 1 <= k <= n,
            n == s@.len(),
            forall|w: int| spec_valid_split(s@, w) ==> w == d,
            forall|j: int| d < j < k ==> is_alpha_char(#[trigger] s@[j]),
        decreases n - k,
    {
        if !alpha_char(s.get_char(k)) {
            return false;
        }
        k = k + 1;
    }
    assert(spec_valid_split(s@, d as int));
    true
}

} // verus!
