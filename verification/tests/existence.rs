use site_traversal::existence::{padding_guesses, Probe, SkipCheck};
use site_traversal::variant::{Language, VideoType};

const DUB_DE: VideoType = VideoType::Dub(Language::German);
const SUB_DE: VideoType = VideoType::Sub(Language::German);
const SUB_EN: VideoType = VideoType::Sub(Language::English);

/// Answers every probe from `found` and gives the decision with the probes made.
fn run(requested: VideoType, variants: Vec<VideoType>, max: Option<u32>, found: &[Probe]) -> (bool, Vec<Probe>) {
    let mut check = SkipCheck::new(&requested, variants, padding_guesses(max));
    let mut asked = Vec::new();
    while let Some(probe) = check.next_probe() {
        assert_eq!(check.verdict(), None);
        asked.push(probe);
        check.record(found.contains(&probe));
        assert!(asked.len() <= 100);
    }
    (check.verdict().unwrap(), asked)
}

fn probe(video_type: VideoType, max: Option<u32>) -> Probe {
    Probe { video_type, max_episode_number_in_season: max }
}

#[test]
fn three_guesses_per_variant() {
    assert_eq!(padding_guesses(Some(13)), vec![Some(13), Some(1), Some(10)]);
    assert_eq!(padding_guesses(None), vec![None, Some(1), Some(10)]);
}

#[test]
fn wildcard_skips_at_the_first_match() {
    let variants = vec![DUB_DE, SUB_DE, SUB_EN];
    let (skip, asked) = run(VideoType::Unspecified, variants.clone(), Some(24), &[probe(SUB_DE, Some(1))]);
    assert!(skip);
    assert_eq!(
        asked,
        vec![
            probe(DUB_DE, Some(24)),
            probe(DUB_DE, Some(1)),
            probe(DUB_DE, Some(10)),
            probe(SUB_DE, Some(24)),
            probe(SUB_DE, Some(1)),
        ]
    );
    let (skip, asked) = run(VideoType::Unspecified, variants, Some(24), &[probe(DUB_DE, Some(24))]);
    assert!(skip);
    assert_eq!(asked, vec![probe(DUB_DE, Some(24))]);
}

#[test]
fn wildcard_does_not_skip_without_any_match() {
    let variants = vec![DUB_DE, SUB_DE];
    let (skip, asked) = run(VideoType::Unspecified, variants, None, &[probe(SUB_EN, Some(1))]);
    assert!(!skip);
    assert_eq!(asked.len(), 6);
    assert_eq!(asked[0], probe(DUB_DE, None));
    assert_eq!(asked[5], probe(SUB_DE, Some(10)));
}

#[test]
fn concrete_request_needs_every_variant() {
    let (skip, asked) = run(SUB_DE, vec![SUB_DE], Some(5), &[probe(SUB_DE, Some(10))]);
    assert!(skip);
    assert_eq!(asked, vec![probe(SUB_DE, Some(5)), probe(SUB_DE, Some(1)), probe(SUB_DE, Some(10))]);

    let found = [probe(DUB_DE, Some(5)), probe(SUB_EN, Some(1))];
    let (skip, asked) = run(SUB_DE, vec![DUB_DE, SUB_DE, SUB_EN], Some(5), &found);
    assert!(!skip);
    assert_eq!(
        asked,
        vec![probe(DUB_DE, Some(5)), probe(SUB_DE, Some(5)), probe(SUB_DE, Some(1)), probe(SUB_DE, Some(10))]
    );

    let found = [probe(DUB_DE, Some(1)), probe(SUB_DE, Some(10)), probe(SUB_EN, Some(5))];
    let (skip, asked) = run(SUB_DE, vec![DUB_DE, SUB_DE, SUB_EN], Some(5), &found);
    assert!(skip);
    assert_eq!(asked.len(), 2 + 3 + 1);
}

#[test]
fn a_single_missing_variant_prevents_skipping() {
    let found = [probe(DUB_DE, None), probe(SUB_EN, None)];
    let (skip, asked) = run(DUB_DE, vec![DUB_DE, SUB_DE, SUB_EN], None, &found);
    assert!(!skip);
    assert_eq!(asked.last(), Some(&probe(SUB_DE, Some(10))));
    assert!(!asked.iter().any(|p| p.video_type == SUB_EN));
}

#[test]
fn nothing_to_look_for() {
    let (skip, asked) = run(VideoType::Unspecified, vec![], Some(3), &[]);
    assert!(!skip);
    assert!(asked.is_empty());
    let (skip, asked) = run(DUB_DE, vec![], Some(3), &[]);
    assert!(skip);
    assert!(asked.is_empty());
    let mut check = SkipCheck::new(&DUB_DE, vec![DUB_DE], vec![]);
    assert_eq!(check.next_probe(), None);
    assert_eq!(check.verdict(), Some(false));
    check.record(true);
    assert_eq!(check.verdict(), Some(false));
}
