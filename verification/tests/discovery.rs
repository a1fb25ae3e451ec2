use site_traversal::batch::Batch;
use site_traversal::discovery::{
    read_episode_label, read_season_label, shown_text, trim_text, EpisodeInfo, EpisodeNumber, SeasonsInfo,
};
use site_traversal::request::{plan_scope, AllOrSpecific, EpisodesRequest, Scope};
use site_traversal::url::{ParsedUrl, ParsedUrlSeason, Site};

fn labels(values: &[&str]) -> Vec<String> {
    values.iter().map(|v| v.to_string()).collect()
}

#[test]
fn season_labels() {
    assert_eq!(read_season_label("Filme"), Some(0));
    assert_eq!(read_season_label("  filme\n"), Some(0));
    assert_eq!(read_season_label("FILME"), Some(0));
    assert_eq!(read_season_label("3"), Some(3));
    assert_eq!(read_season_label(" \t12\u{a0}"), Some(12));
    assert_eq!(read_season_label("+4"), Some(4));
    assert_eq!(read_season_label("007"), Some(7));
    assert_eq!(read_season_label("4294967295"), Some(4294967295));
    assert_eq!(read_season_label("4294967296"), None);
    assert_eq!(read_season_label(""), None);
    assert_eq!(read_season_label("   "), None);
    assert_eq!(read_season_label("+"), None);
    assert_eq!(read_season_label("-1"), None);
    assert_eq!(read_season_label("1 2"), None);
    assert_eq!(read_season_label("Staffeln:"), None);
    assert_eq!(read_season_label("Film"), None);
}

#[test]
fn episode_labels_are_not_trimmed() {
    assert_eq!(read_episode_label("25"), Some(25));
    assert_eq!(read_episode_label("+25"), Some(25));
    assert_eq!(read_episode_label(" 25"), None);
    assert_eq!(read_episode_label("25 "), None);
    assert_eq!(read_episode_label("Filme"), None);
    assert_eq!(read_episode_label(""), None);
}

#[test]
fn seasons_are_ascending_and_unique() {
    let info = SeasonsInfo::from_labels(&labels(&["Staffeln:", "3", " 1 ", "Filme", "2", "3", "x", "10"])).unwrap();
    assert_eq!(info.seasons, vec![0, 1, 2, 3, 10]);
    assert_eq!(SeasonsInfo::from_labels(&labels(&["Staffeln:", "", "eins"])), None);
    assert_eq!(SeasonsInfo::from_labels(&labels(&[])), None);
}

#[test]
fn episode_page() {
    let title = Some("  Der Anfang \n".to_string());
    let info = EpisodeInfo::from_page(2, 5, &title, &labels(&["3", "1", "2", "2", "Filme", "12", " 4"]));
    assert_eq!(
        info,
        EpisodeInfo {
            name: Some("Der Anfang".to_string()),
            season_number: Some(2),
            episode_number: EpisodeNumber::Number(5),
            max_episode_number_in_season: Some(12),
            episodes: vec![1, 2, 3, 12],
        }
    );
    let info = EpisodeInfo::from_page(0, 1, &Some(" \t ".to_string()), &labels(&[]));
    assert_eq!(info.name, None);
    assert_eq!(info.max_episode_number_in_season, None);
    assert_eq!(info.episodes, Vec::<u32>::new());
    assert_eq!(EpisodeInfo::from_page(1, 1, &None, &labels(&["7"])).name, None);
}

#[test]
fn trimming() {
    assert_eq!(trim_text("  VOE \u{2003}\n"), "VOE");
    assert_eq!(trim_text("a b"), "a b");
    assert_eq!(trim_text("\u{3000}"), "");
    assert_eq!(trim_text(""), "");
}

#[test]
fn numbers_are_put_in_their_place() {
    let labels = labels(&["5", "1", "9", "5", "0", "7", "9", "1", "4294967295"]);
    let info = EpisodeInfo::from_page(1, 1, &None, &labels);
    assert_eq!(info.episodes, vec![0, 1, 5, 7, 9, 4294967295]);
    assert_eq!(info.max_episode_number_in_season, Some(4294967295));
}

#[test]
fn texts_as_shown() {
    assert_eq!(shown_text(&Some("  Detektiv Conan\n".to_string())), Some("Detektiv Conan".to_string()));
    assert_eq!(shown_text(&Some(" \u{a0} ".to_string())), None);
    assert_eq!(shown_text(&Some(String::new())), None);
    assert_eq!(shown_text(&None), None);
}

fn url(season: Option<ParsedUrlSeason>) -> ParsedUrl {
    ParsedUrl { site: Site::AniWorld, name: "x".to_string(), season }
}

#[test]
fn scope_of_a_request() {
    let series = url(None);
    let season = url(Some(ParsedUrlSeason { season: 3, episode: None }));
    let episode = url(Some(ParsedUrlSeason { season: 3, episode: Some(4) }));
    let some = AllOrSpecific::Specific(vec![2, 4]);
    assert_eq!(
        plan_scope(&series, EpisodesRequest::Unspecified),
        Scope::AllSeasons { seasons: AllOrSpecific::All }
    );
    assert_eq!(
        plan_scope(&season, EpisodesRequest::Unspecified),
        Scope::OneSeason { season: 3, episodes: AllOrSpecific::All }
    );
    assert_eq!(
        plan_scope(&episode, EpisodesRequest::Unspecified),
        Scope::OneEpisode { season: 3, episode: 4 }
    );
    assert_eq!(
        plan_scope(&series, EpisodesRequest::Episodes(some.clone())),
        Scope::OneSeason { season: 1, episodes: some.clone() }
    );
    assert_eq!(
        plan_scope(&episode, EpisodesRequest::Episodes(some.clone())),
        Scope::OneSeason { season: 3, episodes: some.clone() }
    );
    assert_eq!(
        plan_scope(&url(Some(ParsedUrlSeason { season: 0, episode: None })), EpisodesRequest::Episodes(AllOrSpecific::All)),
        Scope::OneSeason { season: 0, episodes: AllOrSpecific::All }
    );
    assert_eq!(
        plan_scope(&episode, EpisodesRequest::Seasons(some.clone())),
        Scope::AllSeasons { seasons: some.clone() }
    );
}

#[test]
fn selections() {
    assert!(AllOrSpecific::All.contains(0));
    assert!(AllOrSpecific::All.contains(4294967295));
    let some = AllOrSpecific::Specific(vec![2, 4]);
    assert!(some.contains(2));
    assert!(some.contains(4));
    assert!(!some.contains(3));
    assert!(!AllOrSpecific::Specific(vec![]).contains(0));
    assert_eq!(some.duplicate(), some);
}

#[test]
fn a_batch_attempts_every_wanted_item() {
    let mut batch = Batch::new(vec![1, 2, 3, 4, 5], AllOrSpecific::Specific(vec![5, 2, 3, 9]));
    let mut visited = vec![];
    while let Some(item) = batch.current() {
        visited.push((batch.position(), item));
        batch.record(item != 3);
        assert!(visited.len() <= 5);
    }
    assert_eq!(visited, vec![(1, 2), (2, 3), (4, 5)]);
    assert!(!batch.succeeded());
    batch.record(true);
    assert_eq!(batch.current(), None);
    assert!(!batch.succeeded());

    let mut batch = Batch::new(vec![7, 8], AllOrSpecific::All);
    assert_eq!(batch.current(), Some(7));
    batch.record(true);
    assert_eq!(batch.current(), Some(8));
    batch.record(true);
    assert_eq!(batch.current(), None);
    assert!(batch.succeeded());

    let batch = Batch::new(vec![7, 8], AllOrSpecific::Specific(vec![]));
    assert_eq!(batch.current(), None);
    assert!(batch.succeeded());
}

#[test]
fn labels_are_read_as_unsigned_numbers() {
    let texts = [
        "", "0", "1", "9", "10", "007", "+7", "+", "++7", "-7", "+-7", "7+", " 7", "7 ", "7.0", "1e3", "١",
        "4294967295", "4294967296", "04294967295", "+4294967295", "42949672950", "99999999999999999999",
        "0x10", "1_000", "①", "12a", "a12", "\u{ff11}",
    ];
    for text in texts {
        assert_eq!(read_episode_label(text), text.parse::<u32>().ok(), "{text:?}");
    }
    for n in (0u32..2000).chain(4294967000..=4294967295) {
        assert_eq!(read_episode_label(&n.to_string()), Some(n));
        assert_eq!(read_season_label(&format!(" {n}\t")), Some(n));
    }
}

#[test]
fn white_space_is_what_trimming_takes_it_to_be() {
    for code in 0u32..=0x3100 {
        let Some(c) = char::from_u32(code) else { continue };
        for text in [format!("{c}"), format!("{c}a{c}"), format!("a{c}"), format!("{c} a {c}b{c} "), format!("a{c}b")] {
            assert_eq!(trim_text(&text), text.trim(), "{text:?}");
        }
    }
}
