use agent_engine::evaluator::ChangeEvaluator;
use agent_engine::version_control::Change;
use agent_engine::version_control::ChangeType;

fn change_with_content(before: &str, after: &str) -> Change {
    Change {
        id: String::from("c-1"),
        timestamp: 1,
        agent_id: String::from("agent-1"),
        agent_type: String::from("UIAgent"),
        file_path: String::from("index.html"),
        change_type: ChangeType::Modify,
        before: String::from(before),
        after: String::from(after),
        metadata: Vec::new(),
        evaluation_score: None,
    }
}

#[test]
fn empty_content_scores_exactly() {
    // Aesthetic: no markers, so 50.  Functionality: no raw-HTML injection
    // (+10) and balanced braces (+5), so 65.  Overall: (40*50 + 60*65)/100.
    let policy = ChangeEvaluator::new();
    let r = policy.evaluate_change(&change_with_content("", ""));
    assert_eq!(r.aesthetic_score, 50);
    assert_eq!(r.functionality_score, 65);
    assert_eq!(r.overall_score, 59);
    assert_eq!(100 * r.overall_score, 40 * r.aesthetic_score + 60 * r.functionality_score);
    assert!(!r.should_keep);
    assert_eq!(r.issues, vec![String::from("Overall score below minimum threshold")]);
    assert_eq!(r.recommendations, vec![String::from("Consider rolling back this change")]);
}

#[test]
fn rich_content_reaches_the_cap() {
    let content = "var(-- @media transition quantum <section try async aria- \
                   requestAnimationFrame sanitize";
    let policy = ChangeEvaluator::new();
    let r = policy.evaluate_change(&change_with_content(content, content));
    assert_eq!(r.aesthetic_score, 100);
    assert_eq!(r.functionality_score, 100);
    assert_eq!(r.overall_score, 100);
    assert!(r.should_keep);
    assert!(r.issues.is_empty());
    assert!(r.recommendations.is_empty());
}

#[test]
fn keep_holds_exactly_at_the_threshold() {
    // Aesthetic 60 (transition), functionality 60 (error handling, raw
    // innerHTML, unbalanced brace): overall exactly 60.
    let content = "transition error innerHTML {";
    let policy = ChangeEvaluator::new();
    let r = policy.evaluate_change(&change_with_content(content, content));
    assert_eq!(r.aesthetic_score, 60);
    assert_eq!(r.functionality_score, 60);
    assert_eq!(r.overall_score, 60);
    assert_eq!(100 * r.overall_score, 40 * r.aesthetic_score + 60 * r.functionality_score);
    assert!(r.should_keep);
    assert!(r.issues.is_empty());
}

#[test]
fn leftover_debug_output_is_penalized() {
    let policy = ChangeEvaluator::new();
    let penalized = policy.evaluate_change(&change_with_content("console.log", "console.log"));
    assert_eq!(penalized.functionality_score, 60);
    let annotated = policy.evaluate_change(&change_with_content(
        "// debug console.log",
        "// debug console.log",
    ));
    assert_eq!(annotated.functionality_score, 65);
}

#[test]
fn lowercasing_feeds_the_aesthetic_check() {
    // The marker is upper case in the content; only the case-folded text
    // contains "transition", so the bump proves the folding happened.
    let policy = ChangeEvaluator::new();
    let r = policy.evaluate_change(&change_with_content("TRANSITION", "TRANSITION"));
    assert_eq!(r.aesthetic_score, 60);
}

#[test]
fn size_growth_always_raises_the_issue() {
    let policy = ChangeEvaluator::new();
    let r = policy.evaluate_change(&change_with_content("ab", "abcdefgh"));
    assert!(r.issues.contains(&String::from("Significant size increase detected")));
    assert!(r.recommendations.contains(&String::from("Consider optimization")));
    let same = policy.evaluate_change(&change_with_content("abcd", "abcdefgh"));
    assert!(!same.issues.contains(&String::from("Significant size increase detected")));
}

#[test]
fn incomplete_work_markers_raise_the_issue() {
    let policy = ChangeEvaluator::new();
    let r = policy.evaluate_change(&change_with_content("x", "x TODO"));
    assert!(r.issues.contains(&String::from("Incomplete code detected")));
    let fixme = policy.evaluate_change(&change_with_content("x", "x FIXME"));
    assert!(fixme.issues.contains(&String::from("Incomplete code detected")));
}

#[test]
fn score_functions_are_reachable_on_plain_text() {
    // The public scorers take the text as given: the aesthetic rule sees
    // exactly what it is handed, so unfolded upper-case markers earn
    // nothing here, while the evaluator's own folding step earns them.
    assert_eq!(ChangeEvaluator::aesthetic_score_of(""), 50);
    assert_eq!(ChangeEvaluator::aesthetic_score_of("transition"), 60);
    assert_eq!(ChangeEvaluator::aesthetic_score_of("TRANSITION"), 50);
    assert_eq!(ChangeEvaluator::functionality_score_of(""), 65);
    assert_eq!(ChangeEvaluator::functionality_score_of("console.log"), 60);
}

#[test]
fn comparison_rewards_improvement() {
    let policy = ChangeEvaluator::new();
    let worse = change_with_content("", "");
    let better = change_with_content("transition async aria-", "transition async aria-");
    let r = policy.compare_changes(&worse, &better);
    assert!(r
        .recommendations
        .contains(&String::from("This change improves upon the previous version")));
}

#[test]
fn comparison_flags_regression_and_rejects() {
    let policy = ChangeEvaluator::new();
    let better = change_with_content("transition async aria-", "transition async aria-");
    let worse = change_with_content("", "");
    let r = policy.compare_changes(&better, &worse);
    assert!(r.issues.contains(&String::from("This change may be a regression")));
    assert!(!r.should_keep);
}
