//! The literal stage: plain find-and-replace rules.

use vstd::prelude::*;

use crate::text::{replace_all, replace_text};

verus! {

/// Sanitizer that replaces literal substrings.
///
/// Rules run in order, each on the output of the one before, so a later rule
/// can match text that an earlier replacement produced.
pub struct SubstringSanitizer {
    rules: Vec<(String, String)>,
}

/// The rules applied in order: each replaces every occurrence of its needle.
pub open spec fn substring_rewrite(rules: Seq<(Seq<char>, Seq<char>)>, html: Seq<char>) -> Seq<char>
    decreases rules.len(),
{
    if rules.len() == 0 {
        html
    } else {
        let (needle, replacement) = rules.last();
        replace_all(substring_rewrite(rules.drop_last(), html), needle, replacement)
    }
}

pub open spec fn owned_pairs_view(rules: Seq<(String, String)>) -> Seq<(Seq<char>, Seq<char>)> {
    rules.map_values(|r: (String, String)| (r.0@, r.1@))
}

pub open spec fn pairs_view(rules: Seq<(&str, &str)>) -> Seq<(Seq<char>, Seq<char>)> {
    rules.map_values(|r: (&str, &str)| (r.0@, r.1@))
}

impl View for SubstringSanitizer {
    type V = Seq<(Seq<char>, Seq<char>)>;

    closed spec fn view(&self) -> Seq<(Seq<char>, Seq<char>)> {
        owned_pairs_view(self.rules@)
    }
}

/// Owned copies of the `(pattern, replacement)` pairs, in order.
pub(crate) fn own_pairs(rules: &Vec<(&str, &str)>) -> (r: Vec<(String, String)>)
    ensures
        owned_pairs_view(r@) == pairs_view(rules@),
{
    let mut owned: Vec<(String, String)> = Vec::new();
    let mut k: usize = 0;
    assert(owned_pairs_view(owned@) =~= pairs_view(rules@.take(0)));
    while k < rules.len()
        invariant
            k <= rules.len(),
            owned@.len() == k,
            owned_pairs_view(owned@) == pairs_view(rules@.take(k as int)),
        decreases rules.len() - k,
    {
        let (a, b) = rules[k];
        let ghost before = owned@;
        owned.push((a.to_owned(), b.to_owned()));
        proof {
            let lhs = owned_pairs_view(owned@);
            let rhs = pairs_view(rules@.take(k + 1));
            assert forall|j: int| 0 <= j < lhs.len() implies lhs[j] == rhs[j] by {
                if j < k {
                    assert(owned@[j] == before[j]);
                    assert(rules@.take(k + 1)[j] == rules@.take(k as int)[j]);
                    assert(owned_pairs_view(before)[j] == pairs_view(rules@.take(k as int))[j]);
                } else {
                    assert(rules@.take(k + 1)[j] == rules@[k as int]);
                }
            }
            assert(lhs =~= rhs);
        }
        k += 1;
    }
    assert(rules@.take(rules.len() as int) =~= rules@);
    owned
}

impl SubstringSanitizer {
    /// Creates a sanitizer from `(needle, replacement)` pairs.
    pub fn new(rules: Vec<(&str, &str)>) -> (r: Self)
        ensures
            r@ == pairs_view(rules@),
    {
        SubstringSanitizer { rules: own_pairs(&rules) }
    }

    pub(crate) fn rewrite(&self, html: &str) -> (r: String)
        ensures
            r@ == substring_rewrite(self@, html@),
    {
        let mut out = html.to_owned();
        let ghost rv = owned_pairs_view(self.rules@);
        let mut k: usize = 0;
        assert(rv.take(0) =~= Seq::<(Seq<char>, Seq<char>)>::empty());
        while k < self.rules.len()
            invariant
                k <= self.rules.len(),
                rv == owned_pairs_view(self.rules@),
                out@ == substring_rewrite(rv.take(k as int), html@),
            decreases self.rules.len() - k,
        {
            let (needle, replacement) = &self.rules[k];
            assert(rv.take(k + 1).drop_last() =~= rv.take(k as int));
            out = replace_text(out.as_str(), needle.as_str(), replacement.as_str());
            k += 1;
        }
        assert(rv.take(self.rules.len() as int) =~= rv);
        out
    }
}

/// Rules run one after another: the rules `first + second` have the effect
/// of `first`, then `second` on its output, so a later rule also rewrites
/// text that an earlier one produced.
pub proof fn lemma_substring_rules_chain(
    first: Seq<(Seq<char>, Seq<char>)>,
    second: Seq<(Seq<char>, Seq<char>)>,
    html: Seq<char>,
)
    ensures
        substring_rewrite(first + second, html) == substring_rewrite(second, substring_rewrite(first, html)),
    decreases second.len(),
{
    if second.len() == 0 {
        assert(first + second =~= first);
    } else {
        lemma_substring_rules_chain(first, second.drop_last(), html);
        assert((first + second).drop_last() =~= first + second.drop_last());
        assert((first + second).last() == second.last());
    }
}
} // verus!
