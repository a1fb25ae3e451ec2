use site_traversal::links::{discover_links, resolve_links, usable_links, ResolvedLink};
use site_traversal::sources::{is_same_platform, order_candidates, CandidateSource, ExtractorMatch};

fn catalog() -> Vec<Vec<String>> {
    vec![
        vec!["VOE".to_string(), "Voe.sx".to_string()],
        vec!["Filemoon".to_string()],
        vec!["Vidoza".to_string()],
        vec!["Streamtape".to_string(), "Streamtape.com".to_string(), "STape".to_string()],
    ]
}

fn letters() -> Vec<Vec<String>> {
    vec![vec!["A".to_string()], vec!["B".to_string()], vec!["C".to_string()]]
}

fn candidates(names: &[&str]) -> Vec<CandidateSource> {
    names
        .iter()
        .enumerate()
        .map(|(i, name)| CandidateSource { name: name.to_string(), url: format!("https://host/redirect/{i}") })
        .collect()
}

fn named(name: &str) -> ExtractorMatch {
    ExtractorMatch::Name(name.to_string())
}

#[test]
fn named_matches_come_first_and_the_wildcard_appends_the_rest() {
    let order = order_candidates(
        &letters(),
        &vec![named("B"), named("A"), ExtractorMatch::Any],
        &candidates(&["A", "C", "B"]),
    );
    assert_eq!(order, vec![2, 0, 1]);
}

#[test]
fn without_wildcard_unnamed_candidates_are_left_out() {
    let order = order_candidates(&letters(), &vec![named("B"), named("A")], &candidates(&["A", "C", "B"]));
    assert_eq!(order, vec![2, 0]);
    let order = order_candidates(&letters(), &vec![], &candidates(&["A", "C", "B"]));
    assert_eq!(order, Vec::<usize>::new());
}

#[test]
fn wildcard_is_terminal() {
    let order = order_candidates(
        &letters(),
        &vec![named("C"), ExtractorMatch::Any, named("A"), ExtractorMatch::Any],
        &candidates(&["A", "B", "C", "A"]),
    );
    assert_eq!(order, vec![2, 0, 1, 3]);
    let order = order_candidates(&letters(), &vec![ExtractorMatch::Any], &candidates(&["C", "A", "B"]));
    assert_eq!(order, vec![0, 1, 2]);
}

#[test]
fn a_named_entry_takes_one_candidate_at_a_time() {
    let order = order_candidates(
        &letters(),
        &vec![named("A"), named("B"), named("A"), named("A")],
        &candidates(&["B", "A", "C", "A"]),
    );
    assert_eq!(order, vec![1, 0, 3]);
}

#[test]
fn names_match_by_alias_and_without_regard_to_case() {
    let catalog = catalog();
    assert!(is_same_platform(&catalog, "voe", "Voe.sx"));
    assert!(is_same_platform(&catalog, "STREAMTAPE", "stape"));
    assert!(is_same_platform(&catalog, "filemoon", "FileMoon"));
    assert!(!is_same_platform(&catalog, "voe", "Filemoon"));
    assert!(!is_same_platform(&catalog, "unknown", "unknown"));
    assert!(!is_same_platform(&catalog, "voe", "vo\u{e9}"));
    assert!(!is_same_platform(&vec![], "voe", "voe"));
    let order = order_candidates(
        &catalog,
        &vec![named("stape"), named("Doodstream"), named("voe"), ExtractorMatch::Any],
        &candidates(&["Filemoon", "VOE", "Streamtape.com", "Mystery"]),
    );
    assert_eq!(order, vec![2, 1, 0, 3]);
}

fn targets(values: &[Option<&str>]) -> Vec<Option<String>> {
    values.iter().map(|v| v.map(|s| s.to_string())).collect()
}

#[test]
fn link_targets_are_resolved_against_the_page() {
    let page = "https://aniworld.to/anime/stream/detektiv-conan/staffel-1/episode-2";
    let given = targets(&[
        Some("/redirect/123"),
        None,
        Some("https://voe.sx/e/abc"),
        Some("redirect/7"),
        Some("//other.host/x"),
        Some("https://[broken"),
    ]);
    let resolved = resolve_links(page, &given);
    assert_eq!(
        resolved,
        targets(&[
            Some("https://aniworld.to/redirect/123"),
            None,
            Some("https://voe.sx/e/abc"),
            Some("https://aniworld.to/anime/stream/detektiv-conan/staffel-1/redirect/7"),
            Some("https://other.host/x"),
            None,
        ])
    );
    let links = discover_links(page, &given);
    assert_eq!(
        links,
        vec![
            ResolvedLink { target: "/redirect/123".to_string(), url: "https://aniworld.to/redirect/123".to_string() },
            ResolvedLink { target: "https://voe.sx/e/abc".to_string(), url: "https://voe.sx/e/abc".to_string() },
            ResolvedLink {
                target: "redirect/7".to_string(),
                url: "https://aniworld.to/anime/stream/detektiv-conan/staffel-1/redirect/7".to_string()
            },
            ResolvedLink { target: "//other.host/x".to_string(), url: "https://other.host/x".to_string() },
        ]
    );
}

#[test]
fn nothing_resolves_against_a_page_without_address() {
    let given = targets(&[Some("/redirect/123"), Some("redirect/7")]);
    assert_eq!(resolve_links("not an address", &given), targets(&[None, None]));
    assert_eq!(discover_links("not an address", &given), vec![]);
}

#[test]
fn links_without_target_or_address_are_left_out() {
    let given = targets(&[Some("a"), None, Some("c"), Some("d"), Some("e")]);
    let resolved = targets(&[Some("https://h/a"), Some("https://h/b"), None, Some("https://h/d")]);
    assert_eq!(
        usable_links(&given, &resolved),
        vec![
            ResolvedLink { target: "a".to_string(), url: "https://h/a".to_string() },
            ResolvedLink { target: "d".to_string(), url: "https://h/d".to_string() },
        ]
    );
    assert_eq!(usable_links(&vec![], &resolved), vec![]);
}
