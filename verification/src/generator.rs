//! Candidate generation: each non-empty input line is combined with the
//! configured top-level domain and kept exactly when the combined string
//! passes the validation rule.  Rejected candidates are silently dropped;
//! order and multiplicity of the kept candidates follow the input.

use vstd::prelude::*;

use crate::validate::{
    is_alnum_char,
    is_alpha_char,
    is_label_char,
    spec_valid_domain,
    spec_valid_split,
    valid_domain_str,
};

verus! {

/// The combined candidate: `line`, a dot, then the top-level domain.
pub open spec fn spec_domain_of(line: Seq<char>, top: Seq<char>) -> Seq<char> {
    line + seq!['.'] + top
}

/// Whether a raw input line survives generation: it is non-empty and its
/// combined candidate passes the validation rule.
pub open spec fn spec_keeps_line(line: Seq<char>, top: Seq<char>) -> bool {
    line.len() > 0 && spec_valid_domain(spec_domain_of(line, top))
}

/// What one line contributes to the candidate list: its combined candidate
/// if it survives, nothing otherwise.
pub open spec fn spec_line_to_domain(line: Seq<char>, top: Seq<char>) -> Option<Seq<char>> {
    if spec_keeps_line(line, top) {
        Some(spec_domain_of(line, top))
    } else {
        None
    }
}

/// The whole candidate list produced from `lines` under top-level domain
/// `top`: each surviving line contributes its candidate exactly once, in
/// input order.
pub open spec fn spec_generate_domains(lines: Seq<Seq<char>>, top: Seq<char>) -> Seq<Seq<char>> {
    lines.filter_map(|line: Seq<char>| spec_line_to_domain(line, top))
}

/// Law: generation is a filter followed by combination: the candidate
/// list holds, for each non-empty line whose combination passes the
/// validation rule, that combination exactly once, in input order, and
/// holds nothing else.  Lines failing validation are dropped silently.
pub proof fn lemma_generation_filters(lines: Seq<Seq<char>>, top: Seq<char>)
    ensures
        spec_generate_domains(lines, top) == lines.filter(
            |l: Seq<char>| spec_keeps_line(l, top),
        ).map_values(|l: Seq<char>| spec_domain_of(l, top)),
    decreases lines.len(),
{
    reveal(Seq::filter);
    let p = |l: Seq<char>| spec_keeps_line(l, top);
    let m = |l: Seq<char>| spec_domain_of(l, top);
    if lines.len() == 0 {
        assert(spec_generate_domains(lines, top) =~= lines.filter(p).map_values(m));
    } else {
        let rest = lines.drop_last();
        lemma_generation_filters(rest, top);
        if p(lines.last()) {
            assert(lines.filter(p) == rest.filter(p).push(lines.last()));
            assert(lines.filter(p).map_values(m) =~= rest.filter(p).map_values(m) + seq![
                m(lines.last()),
            ]);
        } else {
            assert(lines.filter(p) == rest.filter(p));
        }
        assert(spec_generate_domains(lines, top) =~= lines.filter(p).map_values(m));
    }
}

/// Law: a fragment of a single character can never survive generation,
/// whatever the top-level domain: the candidate's first dot stands right
/// after it, so the label before that dot is one character long, under
/// the rule's minimum of three.
pub proof fn lemma_single_char_fragment_rejected(line: Seq<char>, top: Seq<char>)
    requires
        line.len() == 1,
    ensures
        !spec_keeps_line(line, top),
{
    let s = spec_domain_of(line, top);
    assert(s[1] == '.');
    if spec_valid_domain(s) {
        let d = choose|d: int| spec_valid_split(s, d);
        assert(is_label_char(s[1]));
    }
}

/// Law: a fragment of the minimum length the rule admits — three
/// characters, all alphanumeric — combined with a purely alphabetic
/// top-level domain of at least two characters always survives
/// generation.
pub proof fn lemma_minimum_fragment_accepted(line: Seq<char>, top: Seq<char>)
    requires
        line.len() == 3,
        forall|j: int| 0 <= j < line.len() ==> is_alnum_char(#[trigger] line[j]),
        2 <= top.len(),
        forall|j: int| 0 <= j < top.len() ==> is_alpha_char(#[trigger] top[j]),
    ensures
        spec_keeps_line(line, top),
{
    let s = spec_domain_of(line, top);
    assert(s[3] == '.');
    assert forall|j: int| 1 <= j < 2 implies is_label_char(#[trigger] s[j]) by {
        assert(s[j] == line[j]);
    }
    assert forall|j: int| 3 < j < s.len() implies is_alpha_char(#[trigger] s[j]) by {
        assert(s[j] == top[j - 4]);
    }
    assert(s[0] == line[0] && s[2] == line[2]);
    assert(spec_valid_split(s, 3));
}

/// Combines a fragment with the top-level domain by a separating dot.
fn make_domain(name: &str, top: &str) -> (r: String)
    ensures
        r@ == spec_domain_of(name@, top@),
{
    let mut s = String::from_str(name);
    s.append(".");
    s.append(top);
    proof {
        reveal_strlit(".");
        assert(s@ =~= name@ + seq!['.'] + top@);
    }
    s
}

/// Turns raw name fragments into validated fully-qualified domain names
/// under a fixed top-level domain.
pub struct DomainGenerator {
    pub path: String,
    pub top_level: String,
}

impl DomainGenerator {
    /// Remembers where the fragments come from and which top-level domain
    /// to append.
    pub fn new(path: String, top_level: String) -> (r: Self)
        ensures
            r.path@ == path@,
            r.top_level@ == top_level@,
    {
        Self { path, top_level }
    }

    /// Decides the validation rule for one candidate string.
    pub fn valid_domain(&self, domain: &String) -> (r: bool)
        ensures
            r == spec_valid_domain(domain@),
    {
        valid_domain_str(domain.as_str())
    }

    /// Produces the ordered candidate list from the given input lines:
    /// empty lines are skipped, every other line is combined with the
    /// top-level domain, and the combination is kept exactly when it
    /// passes the validation rule.
    pub fn words_to_domains(&self, lines: &Vec<String>) -> (r: Vec<String>)
        ensures
            r.deep_view() == spec_generate_domains(lines.deep_view(), self.top_level@),
    {
        let ghost lv = lines.deep_view();
        let ghost top = self.top_level@;
        let mut out: Vec<String> = Vec::new();
        let mut i: usize = 0;
        while i < lines.len()
            invariant
                i <= lines.len(),
                lv == lines.deep_view(),
                top == self.top_level@,
                lv.len() == lines.len(),
                out.deep_view() == spec_generate_domains(lv.take(i as int), top),
            decreases lines.len() - i,
        {
            let line = &lines[i];
            let ghost prev = out.deep_view();
            if !line.as_str().is_empty() {
                let d = make_domain(line.as_str(), self.top_level.as_str());
                if valid_domain_str(d.as_str()) {
                    out.push(d);
                }
            }
            proof {
                lv.lemma_filter_map_take_succ(
                    (|l: Seq<char>| spec_line_to_domain(l, top)),
                    i as int,
                );
                assert(lv[i as int] == line@);
                assert(out.deep_view() =~= spec_generate_domains(lv.take(i + 1), top));
            }
            i = i + 1;
        }
        proof {
            assert(lv.take(i as int) =~= lv);
        }
        out
    }
}

} // verus!
