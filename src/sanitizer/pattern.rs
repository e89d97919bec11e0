//! The regex stage: find-and-replace rules whose needles are patterns of the
//! `regex` crate.

use vstd::prelude::*;

use regex::Regex;

use crate::sanitizer::substring::{own_pairs, owned_pairs_view, pairs_view};

verus! {

#[verifier::external_type_specification]
#[verifier::external_body]
pub struct ExRegex(regex::Regex);

#[verifier::external_type_specification]
#[verifier::external_body]
pub struct ExRegexError(regex::Error);

/// Whether `regex::Regex::new` accepts `pattern`.
pub uninterp spec fn pattern_compiles(pattern: Seq<char>) -> bool;

/// What `regex::Regex::replace_all` returns for the regex compiled from
/// `pattern`, on `text`, with `replacement` (whose `$` group references it
/// expands).
pub uninterp spec fn regex_replace_all(pattern: Seq<char>, text: Seq<char>, replacement: Seq<char>) -> Seq<char>;

/// A compiled regex, kept with its pattern text.
pub(crate) struct CompiledPattern {
    text: String,
    regex: Regex,
}

impl CompiledPattern {
    pub closed spec fn text(&self) -> Seq<char> {
        self.text@
    }
}

/// Relies on `regex::Regex::new`, which fails on text that is not a valid
/// pattern or whose compiled form exceeds the default size limit.
#[verifier::external_body]
fn compile(pattern: &str) -> (r: Result<CompiledPattern, regex::Error>)
    ensures
        r is Ok <==> pattern_compiles(pattern@),
        r matches Ok(c) ==> c.text() == pattern@,
{
    Regex::new(pattern).map(|regex| CompiledPattern { text: pattern.to_string(), regex })
}

/// Relies on `regex::Regex::replace_all`: every non-overlapping match,
/// leftmost first, replaced.
#[verifier::external_body]
fn replace_matches(pattern: &CompiledPattern, text: &str, replacement: &str) -> (r: String)
    ensures
        r@ == regex_replace_all(pattern.text(), text@, replacement@),
{
    pattern.regex.replace_all(text, replacement).into_owned()
}

/// The rules applied in order, each to the previous one's output.
pub open spec fn regex_rewrite(rules: Seq<(Seq<char>, Seq<char>)>, html: Seq<char>) -> Seq<char>
    decreases rules.len(),
{
    if rules.len() == 0 {
        html
    } else {
        let (pattern, replacement) = rules.last();
        regex_replace_all(pattern, regex_rewrite(rules.drop_last(), html), replacement)
    }
}

/// Whether every pattern among the rules compiles.
pub open spec fn all_compile(rules: Seq<(Seq<char>, Seq<char>)>) -> bool {
    forall|k: int| 0 <= k < rules.len() ==> pattern_compiles(#[trigger] rules[k].0)
}

/// Sanitizer that applies regex find-and-replace rules.
///
/// Rules run in order, each on the output of the one before. Patterns are
/// compiled once, when the sanitizer is built.
pub struct RegexSanitizer {
    rules: Vec<(CompiledPattern, String)>,
}

pub open spec fn compiled_view(rules: Seq<(CompiledPattern, String)>) -> Seq<(Seq<char>, Seq<char>)> {
    rules.map_values(|r: (CompiledPattern, String)| (r.0.text(), r.1@))
}

impl View for RegexSanitizer {
    type V = Seq<(Seq<char>, Seq<char>)>;

    closed spec fn view(&self) -> Seq<(Seq<char>, Seq<char>)> {
        compiled_view(self.rules@)
    }
}

impl RegexSanitizer {
    /// Creates a sanitizer from `(pattern, replacement)` pairs. Every pattern
    /// must compile; [`try_new`](Self::try_new) checks that instead.
    pub fn new(rules: Vec<(&str, &str)>) -> (r: Self)
        requires
            all_compile(pairs_view(rules@)),
        ensures
            r@ == pairs_view(rules@),
    {
        let given = own_pairs(&rules);
        let ghost gv = owned_pairs_view(given@);
        let mut compiled: Vec<(CompiledPattern, String)> = Vec::new();
        let mut k: usize = 0;
        assert(compiled_view(compiled@) =~= gv.take(0));
        while k < given.len()
            invariant
                k <= given.len(),
                compiled@.len() == k,
                gv == owned_pairs_view(given@),
                gv == pairs_view(rules@),
                all_compile(gv),
                compiled_view(compiled@) == gv.take(k as int),
            decreases given.len() - k,
        {
            let (pattern, replacement) = &given[k];
            assert(pattern_compiles(gv[k as int].0));
            match compile(pattern.as_str()) {
                Ok(c) => {
                    let ghost before = compiled@;
                    compiled.push((c, replacement.clone()));
                    proof {
                        let lhs = compiled_view(compiled@);
                        let rhs = gv.take(k + 1);
                        assert forall|j: int| 0 <= j < lhs.len() implies lhs[j] == rhs[j] by {
                            if j < k {
                                assert(compiled@[j] == before[j]);
                                assert(compiled_view(before)[j] == gv.take(k as int)[j]);
                            }
                        }
                        assert(lhs =~= rhs);
                    }
                },
                Err(_) => {
                    assert(false);
                },
            }
            k += 1;
        }
        assert(gv.take(given.len() as int) =~= gv);
        RegexSanitizer { rules: compiled }
    }

    /// Creates a sanitizer from `(pattern, replacement)` pairs, or returns
    /// the error of the first pattern that does not compile.
    pub fn try_new(rules: Vec<(&str, &str)>) -> (r: Result<Self, regex::Error>)
        ensures
            r is Ok <==> all_compile(pairs_view(rules@)),
            r matches Ok(s) ==> s@ == pairs_view(rules@),
    {
        let ghost rv = pairs_view(rules@);
        let mut k: usize = 0;
        while k < rules.len()
            invariant
                k <= rules.len(),
                rv == pairs_view(rules@),
                forall|j: int| 0 <= j < k ==> pattern_compiles(#[trigger] rv[j].0),
            decreases rules.len() - k,
        {
            let (pattern, _) = rules[k];
            match compile(pattern) {
                Ok(_) => {},
                Err(e) => {
                    assert(rv[k as int].0 == pattern@);
                    assert(!pattern_compiles(rv[k as int].0));
                    return Err(e);
                },
            }
            k += 1;
        }
        Ok(Self::new(rules))
    }

    pub(crate) fn rewrite(&self, html: &str) -> (r: String)
        ensures
            r@ == regex_rewrite(self@, html@),
    {
        let mut out = html.to_owned();
        let ghost rv = compiled_view(self.rules@);
        let mut k: usize = 0;
        assert(rv.take(0) =~= Seq::<(Seq<char>, Seq<char>)>::empty());
        while k < self.rules.len()
            invariant
                k <= self.rules.len(),
                rv == compiled_view(self.rules@),
                out@ == regex_rewrite(rv.take(k as int), html@),
            decreases self.rules.len() - k,
        {
            let (pattern, replacement) = &self.rules[k];
            assert(rv.take(k + 1).drop_last() =~= rv.take(k as int));
            out = replace_matches(pattern, out.as_str(), replacement.as_str());
            k += 1;
        }
        assert(rv.take(self.rules.len() as int) =~= rv);
        out
    }
}

} // verus!
