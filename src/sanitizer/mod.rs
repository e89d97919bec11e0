//! Sanitizer stages and the pipeline that chains them.
//!
//! Three stages are built in: [`SubstringSanitizer`] (literal replacements),
//! [`RegexSanitizer`] (regex replacements) and [`SelectorSanitizer`] (element
//! rewrites by CSS selector). A [`SanitizerPipeline`] runs stages in the order
//! they were added.

pub mod dom;
pub mod pattern;
pub mod selector;
pub mod substring;

use vstd::prelude::*;

pub use pattern::RegexSanitizer;
pub use selector::{SelectorAction, SelectorSanitizer};
pub use substring::SubstringSanitizer;

use pattern::regex_rewrite;
use selector::{apply_rules, ActionView};
use substring::substring_rewrite;

verus! {

/// What a stage does, as rules over text.
pub enum StageView {
    Substring(Seq<(Seq<char>, Seq<char>)>),
    Regex(Seq<(Seq<char>, Seq<char>)>),
    Selector(Seq<(Seq<char>, ActionView)>),
}

/// The output of one stage on `html`.
pub open spec fn stage_apply(stage: StageView, html: Seq<char>) -> Seq<char> {
    match stage {
        StageView::Substring(rules) => substring_rewrite(rules, html),
        StageView::Regex(rules) => regex_rewrite(rules, html),
        StageView::Selector(rules) => apply_rules(rules, html),
    }
}

/// The stages run in order, each on the output of the one before.
pub open spec fn pipeline_apply(stages: Seq<StageView>, html: Seq<char>) -> Seq<char>
    decreases stages.len(),
{
    if stages.len() == 0 {
        html
    } else {
        stage_apply(stages.last(), pipeline_apply(stages.drop_last(), html))
    }
}

/// A transformation of HTML text.
pub trait Sanitizer: Sized {
    /// What [`sanitize`](Sanitizer::sanitize) returns for `html`.
    spec fn spec_sanitize(&self, html: Seq<char>) -> Seq<char>;

    /// Transforms `html`.
    fn sanitize(&self, html: &str) -> (r: String)
        ensures
            r@ == self.spec_sanitize(html@),
    ;

    /// This sanitizer as a stage of a pipeline.
    fn into_stage(self) -> (r: SanitizerStage)
        ensures
            forall|html: Seq<char>| #[trigger] stage_apply(r@, html) == self.spec_sanitize(html),
    ;
}

/// One stage of a [`SanitizerPipeline`].
pub enum SanitizerStage {
    Substring(SubstringSanitizer),
    Regex(RegexSanitizer),
    Selector(SelectorSanitizer),
}

impl View for SanitizerStage {
    type V = StageView;

    open spec fn view(&self) -> StageView {
        match self {
            SanitizerStage::Substring(s) => StageView::Substring(s@),
            SanitizerStage::Regex(s) => StageView::Regex(s@),
            SanitizerStage::Selector(s) => StageView::Selector(s@),
        }
    }
}

impl SanitizerStage {
    /// Runs this stage on `html`.
    pub fn run(&self, html: &str) -> (r: String)
        ensures
            r@ == stage_apply(self@, html@),
    {
        match self {
            SanitizerStage::Substring(s) => s.rewrite(html),
            SanitizerStage::Regex(s) => s.rewrite(html),
            SanitizerStage::Selector(s) => s.rewrite(html),
        }
    }
}

impl Sanitizer for SubstringSanitizer {
    open spec fn spec_sanitize(&self, html: Seq<char>) -> Seq<char> {
        substring_rewrite(self@, html)
    }

    fn sanitize(&self, html: &str) -> (r: String) {
        self.rewrite(html)
    }

    fn into_stage(self) -> (r: SanitizerStage) {
        SanitizerStage::Substring(self)
    }
}

impl Sanitizer for RegexSanitizer {
    open spec fn spec_sanitize(&self, html: Seq<char>) -> Seq<char> {
        regex_rewrite(self@, html)
    }

    fn sanitize(&self, html: &str) -> (r: String) {
        self.rewrite(html)
    }

    fn into_stage(self) -> (r: SanitizerStage) {
        SanitizerStage::Regex(self)
    }
}

impl Sanitizer for SelectorSanitizer {
    open spec fn spec_sanitize(&self, html: Seq<char>) -> Seq<char> {
        apply_rules(self@, html)
    }

    fn sanitize(&self, html: &str) -> (r: String) {
        self.rewrite(html)
    }

    fn into_stage(self) -> (r: SanitizerStage) {
        SanitizerStage::Selector(self)
    }
}

/// An ordered chain of sanitizer stages. An empty pipeline returns its input.
pub struct SanitizerPipeline {
    stages: Vec<SanitizerStage>,
}

pub open spec fn stages_view(stages: Seq<SanitizerStage>) -> Seq<StageView> {
    stages.map_values(|s: SanitizerStage| s@)
}

impl View for SanitizerPipeline {
    type V = Seq<StageView>;

    closed spec fn view(&self) -> Seq<StageView> {
        stages_view(self.stages@)
    }
}

impl SanitizerPipeline {
    /// Creates an empty pipeline.
    pub fn new() -> (r: Self)
        ensures
            r@ == Seq::<StageView>::empty(),
    {
        let r = SanitizerPipeline { stages: Vec::new() };
        assert(r@ =~= Seq::<StageView>::empty());
        r
    }

    /// Appends a stage at the end of the pipeline.
    pub fn add<S: Sanitizer>(&mut self, sanitizer: S)
        ensures
            final(self)@.len() == old(self)@.len() + 1,
            final(self)@.drop_last() == old(self)@,
            forall|html: Seq<char>| #[trigger] stage_apply(final(self)@.last(), html) == sanitizer.spec_sanitize(html),
    {
        let stage = sanitizer.into_stage();
        self.stages.push(stage);
        assert(self@.drop_last() =~= old(self)@);
    }

    /// Runs every stage in order on `html`.
    pub fn sanitize(&self, html: &str) -> (r: String)
        ensures
            r@ == pipeline_apply(self@, html@),
    {
        let mut out = html.to_owned();
        let ghost sv = stages_view(self.stages@);
        let mut k: usize = 0;
        assert(sv.take(0) =~= Seq::<StageView>::empty());
        while k < self.stages.len()
            invariant
                k <= self.stages.len(),
                sv == stages_view(self.stages@),
                out@ == pipeline_apply(sv.take(k as int), html@),
            decreases self.stages.len() - k,
        {
            assert(sv.take(k + 1).drop_last() =~= sv.take(k as int));
            out = self.stages[k].run(out.as_str());
            k += 1;
        }
        assert(sv.take(self.stages.len() as int) =~= sv);
        out
    }

    /// Whether no stage has been added.
    pub fn is_empty(&self) -> (r: bool)
        ensures
            r == (self@.len() == 0),
    {
        self.stages.len() == 0
    }
}

impl Default for SanitizerPipeline {
    fn default() -> (r: Self)
        ensures
            r@ == Seq::<StageView>::empty(),
    {
        Self::new()
    }
}

/// A pipeline without stages returns its input unchanged.
pub proof fn lemma_empty_pipeline_is_identity(html: Seq<char>)
    ensures
        pipeline_apply(Seq::<StageView>::empty(), html) == html,
{
}

/// Stages run one after another: the stages `first + second` have the effect
/// of `first`, then `second` on its output.
pub proof fn lemma_pipeline_chain(first: Seq<StageView>, second: Seq<StageView>, html: Seq<char>)
    ensures
        pipeline_apply(first + second, html) == pipeline_apply(second, pipeline_apply(first, html)),
    decreases second.len(),
{
    if second.len() == 0 {
        assert(first + second =~= first);
    } else {
        lemma_pipeline_chain(first, second.drop_last(), html);
        assert((first + second).drop_last() =~= first + second.drop_last());
        assert((first + second).last() == second.last());
    }
}
} // verus!
