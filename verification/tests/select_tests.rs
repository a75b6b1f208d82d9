use spawnpoint::select::{find_template, SelectionOutcome, TemplateInfo};

fn s(x: &str) -> String {
    x.to_string()
}

fn info(name: &str, language: &str) -> TemplateInfo {
    TemplateInfo { name: s(name), language: s(language) }
}

fn catalog() -> Vec<TemplateInfo> {
    vec![
        info("core_app", "rust"),
        info("web_app", "rust"),
        info("core_app", "nodejs"),
        info("worker", "nodejs"),
    ]
}

#[test]
fn exact_request_picks_the_matching_template() {
    let ts = catalog();
    let r = find_template(&ts, &Some(s("nodejs")), &Some(s("core_app")));
    assert_eq!(r, SelectionOutcome::Chosen(2));
}

#[test]
fn exact_request_without_match_is_not_found() {
    let ts = catalog();
    let r = find_template(&ts, &Some(s("go")), &Some(s("core_app")));
    assert_eq!(r, SelectionOutcome::NotFound);
}

#[test]
fn name_ambiguous_across_languages() {
    let ts = catalog();
    let r = find_template(&ts, &None, &Some(s("core_app")));
    assert_eq!(r, SelectionOutcome::Ambiguous);
}

#[test]
fn unique_name_is_chosen_without_language() {
    let ts = catalog();
    let r = find_template(&ts, &None, &Some(s("worker")));
    assert_eq!(r, SelectionOutcome::Chosen(3));
}

#[test]
fn unknown_name_is_not_found() {
    let ts = catalog();
    let r = find_template(&ts, &None, &Some(s("ghost")));
    assert_eq!(r, SelectionOutcome::NotFound);
}

#[test]
fn language_with_several_candidates_needs_a_prompt() {
    let ts = catalog();
    let r = find_template(&ts, &Some(s("rust")), &None);
    assert_eq!(r, SelectionOutcome::NeedsPrompt);
}

#[test]
fn language_with_one_candidate_is_chosen() {
    let ts = vec![info("core_app", "rust"), info("worker", "nodejs")];
    let r = find_template(&ts, &Some(s("rust")), &None);
    assert_eq!(r, SelectionOutcome::Chosen(0));
}

#[test]
fn empty_catalog_is_not_found() {
    let ts: Vec<TemplateInfo> = vec![];
    assert_eq!(find_template(&ts, &None, &None), SelectionOutcome::NotFound);
    assert_eq!(find_template(&ts, &Some(s("rust")), &Some(s("x"))), SelectionOutcome::NotFound);
}

#[test]
fn no_request_parts_needs_a_prompt() {
    let ts = catalog();
    assert_eq!(find_template(&ts, &None, &None), SelectionOutcome::NeedsPrompt);
}
