use std::collections::HashSet;

use agent_browser_native::dom::{collect_backend_node_ids, DomNode};
use agent_browser_native::fuzzy::{diff_ratio, fuzzy_ratio, DiffStep, Ratio};
use agent_browser_native::roles::{is_content_role, is_interactive_role};
use agent_browser_native::semantic::{
    harvest_candidates, next_find_step, ref_label, score_candidate, score_lowered, within_backend_node_id, within_ref_id, AxNode, FindStep,
    RetryDeadline, Score, SemanticCandidate,
};

fn candidate(role: &str, name: &str) -> SemanticCandidate {
    SemanticCandidate {
        role: role.to_string(),
        name: name.to_string(),
        value_text: None,
        backend_node_id: None,
        is_interactive: is_interactive_role(role),
    }
}

fn candidate_with_value(role: &str, name: &str, value: &str) -> SemanticCandidate {
    SemanticCandidate {
        role: role.to_string(),
        name: name.to_string(),
        value_text: Some(value.to_string()),
        backend_node_id: None,
        is_interactive: is_interactive_role(role),
    }
}

fn value(score: Score) -> f32 {
    score.num as f32 / score.den as f32
}

fn ratio(r: Ratio) -> f32 {
    r.num as f32 / r.den as f32
}

#[test]
fn exact_match_scores_highest() {
    let c = candidate("button", "Start a post");
    let score = value(score_candidate(&c, "Start a post", "start a post", None));
    assert!(
        score > 0.95,
        "Exact match should score > 0.95, got {}",
        score
    );
}

#[test]
fn case_insensitive_exact_match() {
    let c = candidate("button", "Start a Post");
    let score = value(score_candidate(&c, "start a post", "start a post", None));
    assert!(
        score > 0.95,
        "Case-insensitive exact match should score > 0.95, got {}",
        score
    );
}

#[test]
fn substring_match_name_contains_query() {
    let c = candidate("button", "Click here to Start a post about something");
    let score = value(score_candidate(&c, "Start a post", "start a post", None));
    assert!(
        score > 0.4 && score < 0.8,
        "Substring match should be 0.4-0.8, got {}",
        score
    );
}

#[test]
fn query_contains_name() {
    let c = candidate("button", "Start a post");
    let score = value(score_candidate(
        &c,
        "Start a post button on the page",
        "start a post button on the page",
        None,
    ));
    assert!(
        score > 0.35,
        "Query-contains-name should score > 0.35, got {}",
        score
    );
}

#[test]
fn fuzzy_match_with_typo() {
    let c = candidate("button", "Start a post");
    let score = value(score_candidate(&c, "Start a pst", "start a pst", None));
    assert!(
        score > 0.3,
        "Fuzzy match with typo should score > 0.3, got {}",
        score
    );
}

#[test]
fn role_hint_boosts_matching_role() {
    let btn = candidate("button", "Submit");
    let link = candidate("link", "Submit");
    let btn_score = value(score_candidate(&btn, "Submit", "submit", Some("button")));
    let link_score = value(score_candidate(&link, "Submit", "submit", Some("button")));
    assert!(
        btn_score > link_score,
        "Role hint should boost button: btn={} link={}",
        btn_score,
        link_score
    );
}

#[test]
fn empty_name_scores_zero() {
    let c = candidate("generic", "");
    let score = value(score_candidate(&c, "Start a post", "start a post", None));
    assert!(
        score < 0.01,
        "Empty name should score near zero, got {}",
        score
    );
}

#[test]
fn value_text_match() {
    let c = candidate_with_value("textbox", "Search", "Find something");
    let score = value(score_candidate(&c, "Find something", "find something", None));
    assert!(
        score >= 0.8,
        "Value text exact match should score >= 0.8, got {}",
        score
    );
}

#[test]
fn prefix_match() {
    let c = candidate("button", "Start a post");
    let score = value(score_candidate(&c, "Start", "start", None));
    assert!(
        score > 0.6,
        "Prefix match should score > 0.6, got {}",
        score
    );
}

#[test]
fn interactive_boost() {
    let interactive = SemanticCandidate {
        role: "button".to_string(),
        name: "Submit".to_string(),
        value_text: None,
        backend_node_id: None,
        is_interactive: true,
    };
    let non_interactive = SemanticCandidate {
        role: "heading".to_string(),
        name: "Submit".to_string(),
        value_text: None,
        backend_node_id: None,
        is_interactive: false,
    };
    let s1 = value(score_candidate(&interactive, "Submit", "submit", None));
    let s2 = value(score_candidate(&non_interactive, "Submit", "submit", None));
    assert!(
        s1 > s2,
        "Interactive should score higher: {} vs {}",
        s1,
        s2
    );
}

#[test]
fn fuzzy_ratio_identical() {
    assert!((ratio(fuzzy_ratio("hello", "hello")) - 1.0).abs() < 0.01);
}

#[test]
fn fuzzy_ratio_empty() {
    assert!(ratio(fuzzy_ratio("hello", "")).abs() < 0.01);
    assert!((ratio(fuzzy_ratio("", "")) - 1.0).abs() < 0.01);
}

#[test]
fn fuzzy_ratio_similar() {
    let r = ratio(fuzzy_ratio("start a post", "start a pst"));
    assert!(r > 0.8, "Similar strings should have high ratio: {}", r);
}

#[test]
fn fuzzy_ratio_different() {
    let r = ratio(fuzzy_ratio("start a post", "completely different text"));
    assert!(r < 0.5, "Different strings should have low ratio: {}", r);
}

// ---------------------------------------------------------------------------
// Exact values of the scoring rules
// ---------------------------------------------------------------------------

#[test]
fn exact_match_value_is_clamped_to_one() {
    // 0.95 + 0.05 (interactive) = 1.0
    let c = candidate("button", "Start a post");
    assert_eq!(score_candidate(&c, "Start a post", "start a post", None), Score { num: 20, den: 20 });
}

#[test]
fn prefix_match_exact_value() {
    // 0.6 + 0.3 * 5 / 12 + 0.05 = 186 / 240
    let c = candidate("button", "Start a post");
    assert_eq!(score_candidate(&c, "Start", "start", None), Score { num: 186, den: 240 });
}

#[test]
fn name_contains_query_exact_value() {
    // name is 42 bytes, query 12: 0.4 + 0.3 * 12 / 42 + 0.05
    let c = candidate("button", "Click here to Start a post about something");
    let s = score_candidate(&c, "Start a post", "start a post", None);
    assert_eq!(s, Score { num: 8 * 42 + 6 * 12 + 42, den: 20 * 42 });
}

#[test]
fn query_contains_name_exact_value() {
    // name 12 bytes inside a 23-byte query: 0.35 + 0.3 * 12 / 23 + 0.05
    let c = candidate("button", "Start a post");
    let s = score_candidate(&c, "Please start a post now", "please start a post now", None);
    assert_eq!(s, Score { num: 7 * 23 + 6 * 12 + 23, den: 20 * 23 });
}

#[test]
fn name_as_prefix_of_query_exact_value() {
    // the name is a prefix of the 31-byte query: 0.6 + 0.3 * 12 / 31 + 0.05
    let c = candidate("button", "Start a post");
    let s = score_candidate(&c, "x", "start a post button on the page", None);
    assert_eq!(s, Score { num: 12 * 31 + 6 * 12 + 31, den: 20 * 31 });
}

#[test]
fn short_name_inside_query_gets_no_containment_signal() {
    // "go" is shorter than 3 bytes: no query-contains-name signal; the diff
    // ratio 4 / 11 stays below 0.6, so only the interactive bonus remains.
    let c = candidate("link", "go");
    let s = score_candidate(&c, "Let us go", "let us go", None);
    assert_eq!(s, Score { num: 1, den: 20 });
}

#[test]
fn fuzzy_match_exact_value() {
    // "start a post" vs "start a pst": 11 matched chars, ratio 22 / 23;
    // 0.7 * 22 / 23 + 0.05 = (14 * 22 + 23) / (20 * 23)
    let c = candidate("button", "Start a post");
    let s = score_candidate(&c, "Start a pst", "start a pst", None);
    assert_eq!(s, Score { num: 14 * 22 + 23, den: 20 * 23 });
}

#[test]
fn value_text_contains_query_adds_bonus() {
    // name gives nothing, value text contains the query: +0.15, textbox +0.05
    let c = candidate_with_value("textbox", "qqqq", "please find something here");
    let s = score_candidate(&c, "find something", "find something", None);
    assert_eq!(s, Score { num: 4, den: 20 });
}

#[test]
fn role_hint_mismatch_costs_a_twentieth() {
    let c = candidate("heading", "Submit");
    let s = score_candidate(&c, "Submit", "submit", Some("button"));
    assert_eq!(s, Score { num: 18, den: 20 });
}

#[test]
fn role_hint_ignores_ascii_case() {
    let c = candidate("heading", "Submit");
    let s = score_candidate(&c, "Submit", "submit", Some("HEADING"));
    assert_eq!(s, Score { num: 20, den: 20 });
}

#[test]
fn score_never_drops_below_zero() {
    let c = candidate("heading", "zzzz");
    let s = score_candidate(&c, "abc", "abc", Some("button"));
    assert_eq!(s.num, 0);
}

#[test]
fn empty_name_with_value_is_scored() {
    let c = candidate_with_value("textbox", "", "Find something");
    let s = score_candidate(&c, "Find something", "find something", None);
    assert_eq!(s, Score { num: 17, den: 20 });
}

#[test]
fn diff_ratio_counts_equal_runs() {
    let steps = vec![
        DiffStep::Equal { old_index: 0, new_index: 0, len: 3 },
        DiffStep::Replace { old_index: 3, old_len: 2, new_index: 3, new_len: 1 },
        DiffStep::Equal { old_index: 5, new_index: 4, len: 1 },
    ];
    assert_eq!(diff_ratio(&steps, 6, 5), Ratio { num: 8, den: 11 });
    assert_eq!(diff_ratio(&Vec::new(), 0, 0), Ratio { num: 1, den: 1 });
}

#[test]
fn fuzzy_ratio_exact_value() {
    assert_eq!(fuzzy_ratio("start a post", "start a pst"), Ratio { num: 22, den: 23 });
    assert_eq!(fuzzy_ratio("abc", "xyz"), Ratio { num: 0, den: 6 });
    assert_eq!(fuzzy_ratio("", "abc"), Ratio { num: 0, den: 1 });
}

// ---------------------------------------------------------------------------
// Harvesting
// ---------------------------------------------------------------------------

fn node(role: Option<&str>, name: Option<&str>, id: Option<i64>) -> AxNode {
    AxNode {
        ignored: None,
        role: role.map(|s| s.to_string()),
        name: name.map(|s| s.to_string()),
        value: None,
        backend_dom_node_id: id,
    }
}

#[test]
fn harvest_keeps_interactive_and_named_content() {
    let mut ignored = node(Some("button"), Some("Hidden"), Some(9));
    ignored.ignored = Some(true);
    let mut with_value = node(Some("textbox"), Some("Search"), Some(5));
    with_value.value = Some("query".to_string());
    let mut empty_value = node(Some("textbox"), None, Some(6));
    empty_value.value = Some(String::new());
    let nodes = vec![
        node(Some("button"), Some("Submit"), Some(1)),
        node(Some("heading"), Some("Title"), Some(2)),
        node(Some("heading"), None, Some(3)),
        node(Some("generic"), Some("Box"), Some(4)),
        node(None, Some("No role"), Some(7)),
        ignored,
        with_value,
        empty_value,
    ];
    let cs = harvest_candidates(&nodes, None);
    let names: Vec<&str> = cs.iter().map(|c| c.name.as_str()).collect();
    assert_eq!(names, vec!["Submit", "Title", "Search", ""]);
    assert!(cs[0].is_interactive);
    assert!(!cs[1].is_interactive);
    assert_eq!(cs[2].value_text, Some("query".to_string()));
    assert_eq!(cs[3].value_text, None);
    assert_eq!(cs[1].backend_node_id, Some(2));
}

#[test]
fn harvest_respects_within_scope() {
    let nodes = vec![
        node(Some("button"), Some("In"), Some(1)),
        node(Some("button"), Some("Out"), Some(2)),
        node(Some("button"), Some("No id"), None),
    ];
    let mut scope = HashSet::new();
    scope.insert(1i64);
    let cs = harvest_candidates(&nodes, Some(&scope));
    assert_eq!(cs.len(), 1);
    assert_eq!(cs[0].name, "In");
}

#[test]
fn role_tables() {
    assert!(is_interactive_role("button"));
    assert!(is_interactive_role("treeitem"));
    assert!(!is_interactive_role("heading"));
    assert!(is_content_role("heading"));
    assert!(!is_content_role("generic"));
}

// ---------------------------------------------------------------------------
// DOM ids, within references, retry steps
// ---------------------------------------------------------------------------

fn dom(id: Option<i64>, children: Vec<DomNode>) -> DomNode {
    DomNode { backend_node_id: id, children, shadow_roots: Vec::new(), content_document: None }
}

#[test]
fn collects_ids_through_children_shadow_roots_and_documents() {
    let mut root = dom(Some(1), vec![dom(Some(2), vec![dom(Some(3), Vec::new())]), dom(None, Vec::new())]);
    root.shadow_roots = vec![dom(Some(4), Vec::new())];
    root.content_document = Some(Box::new(dom(Some(5), vec![dom(Some(6), Vec::new())])));
    let mut ids = HashSet::new();
    ids.insert(100i64);
    collect_backend_node_ids(&root, &mut ids);
    let mut got: Vec<i64> = ids.into_iter().collect();
    got.sort();
    assert_eq!(got, vec![1, 2, 3, 4, 5, 6, 100]);
}

#[test]
fn within_ref_drops_leading_at_signs() {
    assert_eq!(within_ref_id("@e12"), "e12");
    assert_eq!(within_ref_id("@@e3"), "e3");
    assert_eq!(within_ref_id("e4@"), "e4@");
    assert_eq!(within_ref_id("@@"), "");
}

#[test]
fn retry_steps() {
    assert_eq!(next_find_step(2, RetryDeadline::Pending), FindStep::Deliver);
    assert_eq!(next_find_step(0, RetryDeadline::Pending), FindStep::PauseMillis(200));
    assert_eq!(next_find_step(0, RetryDeadline::Passed), FindStep::GiveUp);
    assert_eq!(next_find_step(0, RetryDeadline::NoDeadline), FindStep::GiveUp);
}

#[test]
fn reference_labels() {
    assert_eq!(ref_label(0), "e0");
    assert_eq!(ref_label(7), "e7");
    assert_eq!(ref_label(12), "e12");
    assert_eq!(ref_label(1090), "e1090");
    assert_eq!(ref_label(u64::MAX), "e18446744073709551615");
}

#[test]
fn mixed_case_name_is_lowercased_before_matching() {
    let c = candidate("heading", "START a Post");
    assert_eq!(score_candidate(&c, "start a post", "start a post", None), Score { num: 19, den: 20 });
}

#[test]
fn scoring_of_lowered_text() {
    assert_eq!(score_lowered("button", "submit", None, true, "submit", None), Score { num: 20, den: 20 });
    assert_eq!(score_lowered("heading", "submit", None, false, "submit", Some("button")), Score { num: 18, den: 20 });
    // no lowercasing happens here: "Submit" only matches "submit" fuzzily,
    // 5 of 6 characters: 0.7 * 10 / 12
    assert_eq!(score_lowered("heading", "Submit", None, false, "submit", None), Score { num: 140, den: 240 });
    assert_eq!(score_lowered("textbox", "", Some("find something"), true, "find something", None), Score { num: 17, den: 20 });
    assert_eq!(score_lowered("generic", "", None, false, "start a post", None), Score { num: 0, den: 20 });
}

#[test]
fn fuzzy_ratio_of_equal_strings_is_one() {
    assert_eq!(fuzzy_ratio("start a post", "start a post"), Ratio { num: 24, den: 24 });
}

#[test]
fn within_reference_resolution() {
    assert_eq!(within_backend_node_id("@e3", Some(Some(42))), Ok(42));
    assert_eq!(
        within_backend_node_id("@e9", None),
        Err("Unknown ref '@e9' for --within".to_string())
    );
    assert_eq!(
        within_backend_node_id("e4", Some(None)),
        Err("Ref 'e4' has no backend_node_id".to_string())
    );
}

#[test]
fn fuzzy_ratio_is_one_only_for_equal_strings() {
    let r = fuzzy_ratio("ab", "ba");
    assert!(r.num < r.den);
    let r = fuzzy_ratio("abc", "abc");
    assert_eq!(r.num, r.den);
}
