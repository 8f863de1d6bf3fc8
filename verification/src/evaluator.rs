//! The evaluation policy: a deterministic scoring of changes, issue and
//! recommendation lists, and the keep decision.  All scores are held in
//! hundredths of a unit, so the weighting rule is exact.

use vstd::prelude::*;
use vstd::arithmetic::div_mod::lemma_div_is_ordered;
use vstd::arithmetic::div_mod::lemma_div_multiples_vanish;
use vstd::arithmetic::div_mod::lemma_div_pos_is_pos;
use vstd::string::StringExecFns;
use crate::text::contains_sub;
use crate::text::count_char;
use crate::text::lower_of;
use crate::text::lowercase;
use crate::text::spec_contains;
use crate::text::spec_count_char;
use crate::version_control::Change;
use crate::version_control::ChangeView;

verus! {

/// The default keep threshold, in hundredths.
pub const DEFAULT_SCORE_THRESHOLD: u32 = 60;

/// The mathematical content of an [`EvaluationResult`].
#[verifier::ext_equal]
pub ghost struct EvaluationResultView {
    pub change_id: Seq<char>,
    pub aesthetic_score: int,
    pub functionality_score: int,
    pub overall_score: int,
    pub issues: Seq<Seq<char>>,
    pub recommendations: Seq<Seq<char>>,
    pub should_keep: bool,
}

/// What the policy concluded of one change: component scores, the weighted
/// overall score, annotations, and the keep decision.
#[derive(Debug, Clone)]
pub struct EvaluationResult {
    pub change_id: String,
    pub aesthetic_score: u32,
    pub functionality_score: u32,
    pub overall_score: u32,
    pub issues: Vec<String>,
    pub recommendations: Vec<String>,
    pub should_keep: bool,
}

impl View for EvaluationResult {
    type V = EvaluationResultView;

    open spec fn view(&self) -> EvaluationResultView {
        EvaluationResultView {
            change_id: self.change_id@,
            aesthetic_score: self.aesthetic_score as int,
            functionality_score: self.functionality_score as int,
            overall_score: self.overall_score as int,
            issues: self.issues.deep_view(),
            recommendations: self.recommendations.deep_view(),
            should_keep: self.should_keep,
        }
    }
}

/// The aesthetic score of lowercased content: one half plus a tenth for
/// each marker family present, capped at one.
pub open spec fn spec_aesthetic(content: Seq<char>) -> int {
    let total = 50 + (if spec_contains(content, "var(--"@) || spec_contains(content, "rgba("@) {
        10int
    } else {
        0int
    }) + (if spec_contains(content, "@media"@) || spec_contains(content, "viewport"@) {
        10int
    } else {
        0int
    }) + (if spec_contains(content, "transition"@) || spec_contains(content, "animation"@) {
        10int
    } else {
        0int
    }) + (if spec_contains(content, "quantum"@) || spec_contains(content, "#00d4ff"@) {
        10int
    } else {
        0int
    }) + (if spec_contains(content, "<section"@) || spec_contains(content, "<article"@) {
        10int
    } else {
        0int
    });
    if total > 100 {
        100
    } else {
        total
    }
}

/// The functionality score of raw content: one half plus fixed bumps for
/// marker families, a small penalty for leftover debug output, clamped to
/// the unit interval.
pub open spec fn spec_functionality(content: Seq<char>) -> int {
    let total = 50 + (if spec_contains(content, "try"@) || spec_contains(content, "catch"@)
        || spec_contains(content, "error"@) {
        10int
    } else {
        0int
    }) + (if spec_contains(content, "async"@) || spec_contains(content, "await"@) {
        10int
    } else {
        0int
    }) + (if spec_contains(content, "aria-"@) || spec_contains(content, "alt="@)
        || spec_contains(content, "role="@) {
        15int
    } else {
        0int
    }) + (if spec_contains(content, "requestAnimationFrame"@) || spec_contains(
        content,
        "debounce"@,
    ) || spec_contains(content, "throttle"@) {
        10int
    } else {
        0int
    }) + (if spec_contains(content, "escapeHtml"@) || spec_contains(content, "sanitize"@)
        || !spec_contains(content, "innerHTML"@) {
        10int
    } else {
        0int
    }) + (if spec_count_char(content, '{') == spec_count_char(content, '}') {
        5int
    } else {
        0int
    }) - (if spec_contains(content, "console.log"@) && !spec_contains(content, "// debug"@) {
        5int
    } else {
        0int
    });
    if total > 100 {
        100int
    } else if total < 0 {
        0int
    } else {
        total
    }
}

/// The overall score: two fifths aesthetic, three fifths functionality.
pub open spec fn spec_overall(aesthetic: int, functionality: int) -> int {
    (40 * aesthetic + 60 * functionality) / 100
}

/// The after content has grown past twice the before content.
pub open spec fn spec_size_growth(c: ChangeView) -> bool {
    c.after.len() > 2 * c.before.len()
}

/// The issue list for the given scores and content, in reporting order.
pub open spec fn spec_issues(c: ChangeView, aesthetic: int, functionality: int, overall: int, threshold: int) -> Seq<Seq<char>> {
    (if aesthetic < 50 {
        seq!["Aesthetic quality below acceptable threshold"@]
    } else {
        Seq::empty()
    }) + (if functionality < 50 {
        seq!["Functionality concerns detected"@]
    } else {
        Seq::empty()
    }) + (if overall < threshold {
        seq!["Overall score below minimum threshold"@]
    } else {
        Seq::empty()
    }) + (if spec_size_growth(c) {
        seq!["Significant size increase detected"@]
    } else {
        Seq::empty()
    }) + (if spec_contains(c.after, "TODO"@) || spec_contains(c.after, "FIXME"@) {
        seq!["Incomplete code detected"@]
    } else {
        Seq::empty()
    })
}

/// The recommendation list for the given scores and content, in reporting
/// order.
pub open spec fn spec_recommendations(c: ChangeView, aesthetic: int, functionality: int, overall: int, threshold: int) -> Seq<Seq<char>> {
    (if aesthetic < 50 {
        seq!["Review color scheme and visual design"@]
    } else {
        Seq::empty()
    }) + (if functionality < 50 {
        seq!["Review code quality and performance impact"@]
    } else {
        Seq::empty()
    }) + (if overall < threshold {
        seq!["Consider rolling back this change"@]
    } else {
        Seq::empty()
    }) + (if spec_size_growth(c) {
        seq!["Consider optimization"@]
    } else {
        Seq::empty()
    }) + (if spec_contains(c.after, "TODO"@) || spec_contains(c.after, "FIXME"@) {
        seq!["Complete implementation before deployment"@]
    } else {
        Seq::empty()
    })
}

/// What evaluating a change yields, in full.
pub open spec fn spec_evaluate(c: ChangeView, threshold: int) -> EvaluationResultView {
    let aesthetic = spec_aesthetic(lower_of(c.after));
    let functionality = spec_functionality(c.after);
    let overall = spec_overall(aesthetic, functionality);
    EvaluationResultView {
        change_id: c.id,
        aesthetic_score: aesthetic,
        functionality_score: functionality,
        overall_score: overall,
        issues: spec_issues(c, aesthetic, functionality, overall, threshold),
        recommendations: spec_recommendations(c, aesthetic, functionality, overall, threshold),
        should_keep: overall >= threshold,
    }
}

/// What comparing a new change against an old one yields: the new change's
/// own evaluation, amended by the improvement or regression rule.
pub open spec fn spec_compare(old_c: ChangeView, new_c: ChangeView, threshold: int) -> EvaluationResultView {
    let base = spec_evaluate(new_c, threshold);
    let prior = spec_evaluate(old_c, threshold);
    if base.overall_score > prior.overall_score {
        EvaluationResultView {
            recommendations: base.recommendations.push(
                "This change improves upon the previous version"@,
            ),
            ..base
        }
    } else if base.overall_score < prior.overall_score {
        EvaluationResultView {
            issues: base.issues.push("This change may be a regression"@),
            should_keep: false,
            ..base
        }
    } else {
        base
    }
}

/// The evaluation policy: fixed weight tables kept for future use, and the keep
/// threshold actually applied.
pub struct ChangeEvaluator {
    aesthetic_weights: Vec<(String, u32)>,
    functionality_weights: Vec<(String, u32)>,
    min_score_threshold: u32,
}

impl ChangeEvaluator {
    /// The keep threshold, in hundredths.
    pub closed spec fn threshold(&self) -> int {
        self.min_score_threshold as int
    }

    /// The aesthetic weight table, in hundredths.
    pub closed spec fn aesthetic_weights(&self) -> Seq<(Seq<char>, u32)> {
        self.aesthetic_weights.deep_view()
    }

    /// The functionality weight table, in hundredths.
    pub closed spec fn functionality_weights(&self) -> Seq<(Seq<char>, u32)> {
        self.functionality_weights.deep_view()
    }

    /// An evaluator with the fixed weight tables and the default threshold.
    pub fn new() -> (e: ChangeEvaluator)
        ensures
            e.threshold() == DEFAULT_SCORE_THRESHOLD,
            e.aesthetic_weights() =~~= seq![
                ("visual_harmony"@, 25u32),
                ("color_scheme"@, 20u32),
                ("typography"@, 15u32),
                ("spacing"@, 15u32),
                ("modern_design"@, 25u32),
            ],
            e.functionality_weights() =~~= seq![
                ("performance"@, 30u32),
                ("accessibility"@, 20u32),
                ("code_quality"@, 25u32),
                ("user_experience"@, 25u32),
            ],
    {
        let mut aesthetic_weights: Vec<(String, u32)> = Vec::new();
        aesthetic_weights.push((String::from_str("visual_harmony"), 25));
        aesthetic_weights.push((String::from_str("color_scheme"), 20));
        aesthetic_weights.push((String::from_str("typography"), 15));
        aesthetic_weights.push((String::from_str("spacing"), 15));
        aesthetic_weights.push((String::from_str("modern_design"), 25));
        let mut functionality_weights: Vec<(String, u32)> = Vec::new();
        functionality_weights.push((String::from_str("performance"), 30));
        functionality_weights.push((String::from_str("accessibility"), 20));
        functionality_weights.push((String::from_str("code_quality"), 25));
        functionality_weights.push((String::from_str("user_experience"), 25));
        ChangeEvaluator {
            aesthetic_weights,
            functionality_weights,
            min_score_threshold: DEFAULT_SCORE_THRESHOLD,
        }
    }

    /// Scores, annotates and decides one change.  The last two clauses
    /// hand callers what the folding step guarantees of the content, so a
    /// concrete change's scores stay derivable without a separate call.
    pub fn evaluate_change(&self, change: &Change) -> (r: EvaluationResult)
        ensures
            r@ == spec_evaluate(change@, self.threshold()),
            change@.after.len() == 0 ==> lower_of(change@.after).len() == 0,
            vstd::utf8::is_ascii_chars(change@.after) ==> lower_of(change@.after)
                == crate::text::ascii_lower_of(change@.after),
    {
        let aesthetic = self.evaluate_aesthetics(change);
        let functionality = self.evaluate_functionality(change);
        let overall = (40 * aesthetic + 60 * functionality) / 100;
        let mut issues: Vec<String> = Vec::new();
        let mut recommendations: Vec<String> = Vec::new();
        if aesthetic < 50 {
            issues.push(String::from_str("Aesthetic quality below acceptable threshold"));
            recommendations.push(String::from_str("Review color scheme and visual design"));
        }
        if functionality < 50 {
            issues.push(String::from_str("Functionality concerns detected"));
            recommendations.push(String::from_str("Review code quality and performance impact"));
        }
        if overall < self.min_score_threshold {
            issues.push(String::from_str("Overall score below minimum threshold"));
            recommendations.push(String::from_str("Consider rolling back this change"));
        }
        if Self::size_growth(change) {
            issues.push(String::from_str("Significant size increase detected"));
            recommendations.push(String::from_str("Consider optimization"));
        }
        if contains_sub(change.after.as_str(), "TODO") || contains_sub(
            change.after.as_str(),
            "FIXME",
        ) {
            issues.push(String::from_str("Incomplete code detected"));
            recommendations.push(String::from_str("Complete implementation before deployment"));
        }
        let r = EvaluationResult {
            change_id: change.id.clone(),
            aesthetic_score: aesthetic,
            functionality_score: functionality,
            overall_score: overall,
            issues,
            recommendations,
            should_keep: overall >= self.min_score_threshold,
        };
        proof {
            assert(r@.issues =~= spec_evaluate(change@, self.threshold()).issues);
            assert(r@.recommendations =~= spec_evaluate(change@, self.threshold()).recommendations);
            assert(r@ =~= spec_evaluate(change@, self.threshold()));
        }
        r
    }

    /// Whether the after content has grown past twice the before content.
    fn size_growth(change: &Change) -> (b: bool)
        ensures
            b == spec_size_growth(change@),
    {
        let after_len = change.after.as_str().unicode_len();
        let before_len = change.before.as_str().unicode_len();
        if before_len > usize::MAX / 2 {
            false
        } else {
            after_len > 2 * before_len
        }
    }

    /// The aesthetic score of content that is already lowercase-folded:
    /// the public face of the aesthetic rule, so the scoring logic can be
    /// exercised on any text without going through the folding call.
    pub fn aesthetic_score_of(text: &str) -> (score: u32)
        ensures
            score as int == spec_aesthetic(text@),
    {
        let mut score: u32 = 50;
        if contains_sub(text, "var(--") || contains_sub(text, "rgba(") {
            score += 10;
        }
        if contains_sub(text, "@media") || contains_sub(text, "viewport") {
            score += 10;
        }
        if contains_sub(text, "transition") || contains_sub(text, "animation") {
            score += 10;
        }
        if contains_sub(text, "quantum") || contains_sub(text, "#00d4ff") {
            score += 10;
        }
        if contains_sub(text, "<section") || contains_sub(text, "<article") {
            score += 10;
        }
        if score > 100 {
            score = 100;
        }
        score
    }

    /// The functionality score of raw content: the public face of the
    /// functionality rule.
    pub fn functionality_score_of(text: &str) -> (score: u32)
        ensures
            score as int == spec_functionality(text@),
    {
        let mut score: u32 = 50;
        if contains_sub(text, "try") || contains_sub(text, "catch") || contains_sub(
            text,
            "error",
        ) {
            score += 10;
        }
        if contains_sub(text, "async") || contains_sub(text, "await") {
            score += 10;
        }
        if contains_sub(text, "aria-") || contains_sub(text, "alt=") || contains_sub(
            text,
            "role=",
        ) {
            score += 15;
        }
        if contains_sub(text, "requestAnimationFrame") || contains_sub(text, "debounce")
            || contains_sub(text, "throttle") {
            score += 10;
        }
        if contains_sub(text, "escapeHtml") || contains_sub(text, "sanitize") || !contains_sub(
            text,
            "innerHTML",
        ) {
            score += 10;
        }
        if count_char(text, '{') == count_char(text, '}') {
            score += 5;
        }
        if contains_sub(text, "console.log") && !contains_sub(text, "// debug") {
            score -= 5;
        }
        if score > 100 {
            score = 100;
        }
        score
    }

    /// The aesthetic score of the lowercased after content, together with
    /// what the folding step guarantees of that content.
    fn evaluate_aesthetics(&self, change: &Change) -> (score: u32)
        ensures
            score as int == spec_aesthetic(lower_of(change@.after)),
            change@.after.len() == 0 ==> lower_of(change@.after).len() == 0,
            vstd::utf8::is_ascii_chars(change@.after) ==> lower_of(change@.after)
                == crate::text::ascii_lower_of(change@.after),
    {
        let content = lowercase(change.after.as_str());
        Self::aesthetic_score_of(content.as_str())
    }

    /// The functionality score of the raw after content.
    fn evaluate_functionality(&self, change: &Change) -> (score: u32)
        ensures
            score as int == spec_functionality(change@.after),
    {
        Self::functionality_score_of(change.after.as_str())
    }

    /// Evaluates `new_change` on its own, then amends the outcome by how it
    /// stands against `old_change`: an improvement earns a recommendation,
    /// a regression earns an issue and loses the keep decision.
    pub fn compare_changes(&self, old_change: &Change, new_change: &Change) -> (r:
        EvaluationResult)
        ensures
            r@ == spec_compare(old_change@, new_change@, self.threshold()),
            old_change@.after.len() == 0 ==> lower_of(old_change@.after).len() == 0,
            new_change@.after.len() == 0 ==> lower_of(new_change@.after).len() == 0,
            vstd::utf8::is_ascii_chars(old_change@.after) ==> lower_of(old_change@.after)
                == crate::text::ascii_lower_of(old_change@.after),
            vstd::utf8::is_ascii_chars(new_change@.after) ==> lower_of(new_change@.after)
                == crate::text::ascii_lower_of(new_change@.after),
    {
        let mut result = self.evaluate_change(new_change);
        let old_eval = self.evaluate_change(old_change);
        if result.overall_score > old_eval.overall_score {
            result.recommendations.push(
                String::from_str("This change improves upon the previous version"),
            );
            proof {
                assert(result@ =~= spec_compare(old_change@, new_change@, self.threshold()));
            }
        } else if result.overall_score < old_eval.overall_score {
            result.issues.push(String::from_str("This change may be a regression"));
            result.should_keep = false;
            proof {
                assert(result@ =~= spec_compare(old_change@, new_change@, self.threshold()));
            }
        }
        result
    }
}

impl Default for ChangeEvaluator {
    /// The same evaluator that [`ChangeEvaluator::new`] builds.
    fn default() -> (e: ChangeEvaluator)
        ensures
            e.threshold() == DEFAULT_SCORE_THRESHOLD,
            e.aesthetic_weights() =~~= seq![
                ("visual_harmony"@, 25u32),
                ("color_scheme"@, 20u32),
                ("typography"@, 15u32),
                ("spacing"@, 15u32),
                ("modern_design"@, 25u32),
            ],
            e.functionality_weights() =~~= seq![
                ("performance"@, 30u32),
                ("accessibility"@, 20u32),
                ("code_quality"@, 25u32),
                ("user_experience"@, 25u32),
            ],
    {
        ChangeEvaluator::new()
    }
}

/// Both component scores are multiples of five hundredths and stay inside
/// the unit interval.
pub proof fn lemma_scores_in_range(content: Seq<char>)
    ensures
        0 <= spec_aesthetic(content) <= 100,
        spec_aesthetic(content) % 5 == 0,
        0 <= spec_functionality(content) <= 100,
        spec_functionality(content) % 5 == 0,
{
}

/// The overall score stays inside the unit interval whenever both
/// components do.
pub proof fn lemma_overall_range(aesthetic: int, functionality: int)
    requires
        0 <= aesthetic <= 100,
        0 <= functionality <= 100,
    ensures
        0 <= spec_overall(aesthetic, functionality) <= 100,
{
    let total = 40 * aesthetic + 60 * functionality;
    lemma_div_pos_is_pos(total, 100);
    lemma_div_is_ordered(total, 10000, 100);
}

/// The overall score is exactly two fifths aesthetic plus three fifths
/// functionality: no rounding is lost, because both components are
/// multiples of five hundredths.  The keep decision is exactly the
/// comparison of that score against the threshold.
pub proof fn lemma_overall_weighting(c: ChangeView, threshold: int)
    ensures
        ({
            let r = spec_evaluate(c, threshold);
            &&& 100 * r.overall_score == 40 * r.aesthetic_score + 60 * r.functionality_score
            &&& r.should_keep <==> r.overall_score >= threshold
        }),
{
    let a = spec_aesthetic(lower_of(c.after));
    let f = spec_functionality(c.after);
    lemma_scores_in_range(lower_of(c.after));
    lemma_scores_in_range(c.after);
    let ka = a / 5;
    let kf = f / 5;
    assert(a == 5 * ka);
    assert(f == 5 * kf);
    assert(40 * a + 60 * f == 100 * (2 * ka + 3 * kf)) by (nonlinear_arith)
        requires
            a == 5 * ka,
            f == 5 * kf,
    ;
    lemma_div_multiples_vanish(2 * ka + 3 * kf, 100);
}

/// A change whose after content has grown past twice its before content
/// always carries the size-growth issue, whatever else it contains.
pub proof fn lemma_size_growth_issue(c: ChangeView, threshold: int)
    requires
        c.after.len() > 2 * c.before.len(),
    ensures
        spec_evaluate(c, threshold).issues.contains("Significant size increase detected"@),
{
    let r = spec_evaluate(c, threshold);
    let a = r.aesthetic_score;
    let f = r.functionality_score;
    let o = r.overall_score;
    let first = (if a < 50 {
        seq!["Aesthetic quality below acceptable threshold"@]
    } else {
        Seq::<Seq<char>>::empty()
    }) + (if f < 50 {
        seq!["Functionality concerns detected"@]
    } else {
        Seq::empty()
    }) + (if o < threshold {
        seq!["Overall score below minimum threshold"@]
    } else {
        Seq::empty()
    });
    let at = first.len();
    assert(r.issues[at as int] == "Significant size increase detected"@);
}

} // verus!
