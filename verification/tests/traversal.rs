use site_traversal::discovery::EpisodeNumber;
use site_traversal::existence::Probe;
use site_traversal::protocol::{Action, DownloadTask, EpisodePage, Event, Extraction, StreamList, VariantLookup};
use site_traversal::request::{AllOrSpecific, DownloadRequest, DownloadSettings, EpisodesRequest, ScrapeError};
use site_traversal::scraper::{Failure, Scraper};
use site_traversal::sources::ExtractorMatch;
use site_traversal::url::ParsedUrl;
use site_traversal::variant::{selector_of, Language, VideoType};

const DUB_DE: VideoType = VideoType::Dub(Language::German);
const SUB_DE: VideoType = VideoType::Sub(Language::German);
const SUB_EN: VideoType = VideoType::Sub(Language::English);
const DUB_EN: VideoType = VideoType::Dub(Language::English);

/// A site as a script: what each action finds, and a record of what was done.
struct FakeSite {
    current: Option<String>,
    unreachable: Vec<String>,
    season_labels: Option<Vec<&'static str>>,
    episode_lists: Vec<(u32, Option<Vec<&'static str>>)>,
    offered: Vec<(VideoType, Option<&'static str>)>,
    streams: Vec<(Option<&'static str>, &'static str)>,
    extraction: Vec<(&'static str, Extraction)>,
    existing: Vec<(u32, u32, Probe)>,
    navigations: Vec<String>,
    waits: Vec<bool>,
    probes: Vec<(u32, u32, Probe)>,
    lookups: Vec<String>,
    attempts: Vec<(String, String, String)>,
    tasks: Vec<DownloadTask>,
}

fn site() -> FakeSite {
    FakeSite {
        current: None,
        unreachable: vec![],
        season_labels: Some(vec!["1", "2", "3"]),
        episode_lists: vec![(1, Some(vec!["1"])), (2, Some(vec!["1"])), (3, Some(vec!["1"]))],
        offered: vec![(DUB_DE, Some("1")), (SUB_DE, Some("3")), (SUB_EN, Some("2"))],
        streams: vec![(Some("/redirect/1"), "Filemoon"), (Some("/redirect/2"), " VOE ")],
        extraction: vec![("Filemoon", Extraction::Failed), ("VOE", Extraction::Extracted)],
        existing: vec![],
        navigations: vec![],
        waits: vec![],
        probes: vec![],
        lookups: vec![],
        attempts: vec![],
        tasks: vec![],
    }
}

fn perform(site: &mut FakeSite, action: Action) -> Event {
    match action {
        Action::Navigate { url } => {
            site.navigations.push(url.clone());
            if site.unreachable.contains(&url) {
                Event::Navigated(false)
            } else {
                site.current = Some(url);
                Event::Navigated(true)
            }
        }
        Action::Wait { page_load } => {
            site.waits.push(page_load);
            Event::Waited
        }
        Action::ReadCurrentUrl => Event::CurrentUrl(site.current.clone()),
        Action::ReadSeasons => Event::SeasonLabels(
            site.season_labels.as_ref().map(|labels| labels.iter().map(|l| l.to_string()).collect()),
        ),
        Action::ReadEpisodePage => {
            let shown = ParsedUrl::try_from(site.current.as_deref().unwrap()).unwrap();
            let season = shown.season.unwrap().season;
            let list = site.episode_lists.iter().find(|(s, _)| *s == season).and_then(|(_, l)| l.clone());
            Event::EpisodePage(list.map(|labels| EpisodePage {
                title: Some(format!(" Title of season {season} ")),
                labels: labels.iter().map(|l| l.to_string()).collect(),
            }))
        }
        Action::Probe { season, episode, probe } => {
            site.probes.push((season, episode, probe));
            Event::Exists(site.existing.contains(&(season, episode, probe)))
        }
        Action::FindVariant { selector } => {
            site.lookups.push(selector.clone());
            let found = site.offered.iter().find(|(v, _)| selector_of(*v) == Some(selector.as_str()));
            Event::Variant(match found {
                Some((_, key)) => VariantLookup::Present { lang_key: key.map(|k| k.to_string()) },
                None => VariantLookup::Absent,
            })
        }
        Action::ListStreams { lang_key } => {
            assert!(!lang_key.is_empty());
            Event::Streams(Some(StreamList {
                page_url: site.current.clone().unwrap(),
                link_targets: site.streams.iter().map(|(t, _)| t.map(|t| t.to_string())).collect(),
            }))
        }
        Action::ReadPlatformName { lang_key: _, link_target } => Event::PlatformName(
            site.streams.iter().find(|(t, _)| *t == Some(link_target.as_str())).map(|(_, n)| n.to_string()),
        ),
        Action::Extract { platform, url, referer } => {
            let outcome = site
                .extraction
                .iter()
                .find(|(p, _)| *p == platform)
                .map(|(_, o)| *o)
                .unwrap_or(Extraction::NoExtractor);
            site.attempts.push((platform, url, referer));
            Event::Extracted(outcome)
        }
        Action::Emit(task) => {
            site.tasks.push(task);
            Event::Sent
        }
        Action::Done(_) => unreachable!(),
    }
}

fn run(scraper: &mut Scraper, site: &mut FakeSite) -> Result<(), ScrapeError> {
    let mut action = scraper.scrape();
    for _ in 0..10000 {
        match action {
            Action::Done(result) => return result,
            other => {
                let event = perform(site, other);
                action = scraper.step(event);
            }
        }
    }
    panic!("the traversal does not end");
}

fn catalog() -> Vec<Vec<String>> {
    vec![
        vec!["VOE".to_string()],
        vec!["Filemoon".to_string()],
        vec!["Vidoza".to_string()],
    ]
}

fn request(language: VideoType, episodes: EpisodesRequest, priorities: Vec<ExtractorMatch>) -> DownloadRequest {
    DownloadRequest {
        language,
        episodes,
        extractor_priorities: priorities,
        series_title: Some("Detektiv Conan".to_string()),
        save_directory: Some("/downloads".to_string()),
    }
}

fn scraper(url: &str, request: DownloadRequest, skip_existing: bool) -> Scraper {
    Scraper::new(ParsedUrl::try_from(url).unwrap(), request, DownloadSettings { skip_existing }, catalog()).unwrap()
}

const SERIES: &str = "https://aniworld.to/anime/stream/detektiv-conan";

#[test]
fn one_episode_falls_back_to_the_platform_that_works() {
    let mut site = site();
    let mut scraper = scraper(
        "https://aniworld.to/anime/stream/detektiv-conan/staffel-1/episode-2",
        request(VideoType::Unspecified, EpisodesRequest::Unspecified, vec![ExtractorMatch::Any]),
        false,
    );
    site.episode_lists = vec![(1, Some(vec!["1", "2", "3"]))];
    assert_eq!(run(&mut scraper, &mut site), Ok(()));
    let page = format!("{SERIES}/staffel-1/episode-2");
    assert_eq!(site.navigations, vec![page.clone()]);
    assert_eq!(
        site.attempts,
        vec![
            ("Filemoon".to_string(), "https://aniworld.to/redirect/1".to_string(), page.clone()),
            ("VOE".to_string(), "https://aniworld.to/redirect/2".to_string(), page.clone()),
        ]
    );
    assert_eq!(site.tasks.len(), 1);
    let task = &site.tasks[0];
    assert_eq!(task.video_type, DUB_DE);
    assert_eq!(task.source.name, "VOE");
    assert_eq!(task.source.url, "https://aniworld.to/redirect/2");
    assert_eq!(task.episode_info.name, Some("Title of season 1".to_string()));
    assert_eq!(task.episode_info.season_number, Some(1));
    assert_eq!(task.episode_info.episode_number, EpisodeNumber::Number(2));
    assert_eq!(task.episode_info.max_episode_number_in_season, Some(3));
    assert_eq!(task.episode_info.episodes, vec![1, 2, 3]);
    assert_eq!(site.waits, vec![true, false, false]);
    assert!(site.probes.is_empty());
    assert_eq!(scraper.step(Event::Waited), Action::Done(Err(ScrapeError::UnexpectedEvent)));
}

#[test]
fn a_failing_season_does_not_keep_the_others_from_being_attempted() {
    let mut site = site();
    site.episode_lists = vec![(1, Some(vec!["1"])), (2, None), (3, Some(vec!["1"]))];
    let mut scraper = scraper(
        SERIES,
        request(VideoType::Unspecified, EpisodesRequest::Unspecified, vec![ExtractorMatch::Any]),
        false,
    );
    assert_eq!(run(&mut scraper, &mut site), Err(ScrapeError::Incomplete));
    assert_eq!(
        site.navigations,
        vec![
            format!("{SERIES}/staffel-1/episode-1"),
            format!("{SERIES}/staffel-2/episode-1"),
            format!("{SERIES}/staffel-3/episode-1"),
        ]
    );
    let emitted: Vec<(Option<u32>, EpisodeNumber)> =
        site.tasks.iter().map(|t| (t.episode_info.season_number, t.episode_info.episode_number)).collect();
    assert_eq!(emitted, vec![(Some(1), EpisodeNumber::Number(1)), (Some(3), EpisodeNumber::Number(1))]);
    assert_eq!(
        scraper.failures(),
        &vec![Failure { season: 2, episode: None, error: ScrapeError::DiscoveryFailure }]
    );
}

#[test]
fn a_failing_episode_does_not_keep_the_others_from_being_attempted() {
    let mut site = site();
    site.episode_lists = vec![(4, Some(vec!["1", "2", "3"]))];
    site.unreachable = vec![format!("{SERIES}/staffel-4/episode-2")];
    let mut scraper = scraper(
        &format!("{SERIES}/staffel-4"),
        request(VideoType::Unspecified, EpisodesRequest::Unspecified, vec![ExtractorMatch::Name("voe".to_string())]),
        false,
    );
    assert_eq!(run(&mut scraper, &mut site), Err(ScrapeError::Incomplete));
    assert_eq!(
        site.navigations,
        vec![
            format!("{SERIES}/staffel-4/episode-1"),
            format!("{SERIES}/staffel-4/episode-2"),
            format!("{SERIES}/staffel-4/episode-3"),
        ]
    );
    let emitted: Vec<EpisodeNumber> = site.tasks.iter().map(|t| t.episode_info.episode_number).collect();
    assert_eq!(emitted, vec![EpisodeNumber::Number(1), EpisodeNumber::Number(3)]);
    let tried: Vec<&str> = site.attempts.iter().map(|a| a.0.as_str()).collect();
    assert_eq!(tried, vec!["VOE", "VOE"]);
    assert_eq!(
        scraper.failures(),
        &vec![Failure { season: 4, episode: Some(2), error: ScrapeError::NavigationFailure }]
    );
}

#[test]
fn failures_of_episodes_and_seasons_are_noted_in_their_order() {
    let mut site = site();
    site.episode_lists = vec![(1, Some(vec!["1", "2"])), (2, None), (3, Some(vec!["1"]))];
    site.unreachable = vec![format!("{SERIES}/staffel-1/episode-2")];
    site.extraction = vec![("Filemoon", Extraction::Failed)];
    let mut scraper = scraper(
        SERIES,
        request(VideoType::Unspecified, EpisodesRequest::Unspecified, vec![ExtractorMatch::Any]),
        false,
    );
    assert_eq!(run(&mut scraper, &mut site), Err(ScrapeError::Incomplete));
    assert!(site.tasks.is_empty());
    assert_eq!(
        scraper.failures(),
        &vec![
            Failure { season: 1, episode: Some(1), error: ScrapeError::NoPlayableSource },
            Failure { season: 1, episode: Some(2), error: ScrapeError::NavigationFailure },
            Failure { season: 1, episode: None, error: ScrapeError::Incomplete },
            Failure { season: 2, episode: None, error: ScrapeError::DiscoveryFailure },
            Failure { season: 3, episode: Some(1), error: ScrapeError::NoPlayableSource },
            Failure { season: 3, episode: None, error: ScrapeError::Incomplete },
        ]
    );
}

#[test]
fn requested_seasons_and_episodes_are_the_only_ones_attempted() {
    let mut site = site();
    site.season_labels = Some(vec!["Filme", "1", "2", "3"]);
    site.episode_lists =
        vec![(0, Some(vec!["1", "2"])), (1, Some(vec!["1"])), (2, Some(vec!["1"])), (3, Some(vec!["1", "2"]))];
    let mut scraper = scraper(
        SERIES,
        request(
            DUB_DE,
            EpisodesRequest::Seasons(AllOrSpecific::Specific(vec![3, 0])),
            vec![ExtractorMatch::Any],
        ),
        false,
    );
    assert_eq!(run(&mut scraper, &mut site), Ok(()));
    let emitted: Vec<(Option<u32>, EpisodeNumber)> =
        site.tasks.iter().map(|t| (t.episode_info.season_number, t.episode_info.episode_number)).collect();
    assert_eq!(
        emitted,
        vec![
            (Some(0), EpisodeNumber::Number(1)),
            (Some(0), EpisodeNumber::Number(2)),
            (Some(3), EpisodeNumber::Number(1)),
            (Some(3), EpisodeNumber::Number(2)),
        ]
    );
    assert_eq!(
        site.navigations,
        vec![
            format!("{SERIES}/staffel-1/episode-1"),
            format!("{SERIES}/filme/film-1"),
            format!("{SERIES}/filme/film-2"),
            format!("{SERIES}/staffel-3/episode-1"),
            format!("{SERIES}/staffel-3/episode-2"),
        ]
    );

    let mut site = self::site();
    site.episode_lists = vec![(1, Some(vec!["1", "2", "3", "4"]))];
    let mut scraper = self::scraper(
        SERIES,
        request(DUB_DE, EpisodesRequest::Episodes(AllOrSpecific::Specific(vec![4, 2])), vec![ExtractorMatch::Any]),
        false,
    );
    assert_eq!(run(&mut scraper, &mut site), Ok(()));
    let emitted: Vec<EpisodeNumber> = site.tasks.iter().map(|t| t.episode_info.episode_number).collect();
    assert_eq!(emitted, vec![EpisodeNumber::Number(2), EpisodeNumber::Number(4)]);
    assert_eq!(
        site.navigations,
        vec![
            format!("{SERIES}/staffel-1/episode-1"),
            format!("{SERIES}/staffel-1/episode-2"),
            format!("{SERIES}/staffel-1/episode-4"),
        ]
    );
}

#[test]
fn the_first_episode_of_a_season_is_read_where_the_session_is() {
    let mut site = site();
    site.episode_lists = vec![(2, Some(vec!["1", "2"]))];
    site.current = Some("https://ANIWORLD.to/anime/stream/detektiv-conan/Staffel-2/Episode-1".to_string());
    let mut scraper = scraper(
        &format!("{SERIES}/staffel-2"),
        request(VideoType::Unspecified, EpisodesRequest::Unspecified, vec![ExtractorMatch::Any]),
        false,
    );
    assert_eq!(run(&mut scraper, &mut site), Ok(()));
    assert_eq!(site.navigations, vec![format!("{SERIES}/staffel-2/episode-2")]);
    assert_eq!(site.tasks.len(), 2);
}

#[test]
fn episodes_downloaded_before_are_skipped() {
    let mut site = site();
    site.episode_lists = vec![(1, Some(vec!["1", "2", "3"]))];
    site.existing = vec![
        (1, 1, Probe { video_type: SUB_DE, max_episode_number_in_season: Some(10) }),
        (1, 3, Probe { video_type: DUB_DE, max_episode_number_in_season: Some(3) }),
    ];
    let mut scraper = scraper(
        &format!("{SERIES}/staffel-1"),
        request(VideoType::Unspecified, EpisodesRequest::Unspecified, vec![ExtractorMatch::Any]),
        true,
    );
    assert_eq!(run(&mut scraper, &mut site), Ok(()));
    let emitted: Vec<EpisodeNumber> = site.tasks.iter().map(|t| t.episode_info.episode_number).collect();
    assert_eq!(emitted, vec![EpisodeNumber::Number(2)]);
    assert_eq!(
        site.navigations,
        vec![format!("{SERIES}/staffel-1/episode-1"), format!("{SERIES}/staffel-1/episode-2")]
    );
    let probes_of: Vec<usize> =
        (1..=3).map(|e| site.probes.iter().filter(|p| p.1 == e).count()).collect();
    assert_eq!(probes_of, vec![6, 12, 1]);
    assert_eq!(site.probes[0], (1, 1, Probe { video_type: DUB_DE, max_episode_number_in_season: Some(3) }));
    assert_eq!(site.probes[3], (1, 1, Probe { video_type: SUB_DE, max_episode_number_in_season: Some(3) }));
    assert_eq!(site.probes[6 + 11], (1, 2, Probe { video_type: DUB_EN, max_episode_number_in_season: Some(10) }));
}

#[test]
fn skipping_needs_title_and_directory() {
    for (title, directory) in [(None, Some("/d".to_string())), (Some("T".to_string()), None)] {
        let mut site = site();
        site.episode_lists = vec![(1, Some(vec!["1"]))];
        site.existing = vec![(1, 1, Probe { video_type: DUB_DE, max_episode_number_in_season: None })];
        let mut asked = request(DUB_DE, EpisodesRequest::Unspecified, vec![ExtractorMatch::Any]);
        asked.series_title = title;
        asked.save_directory = directory;
        let mut scraper = scraper(&format!("{SERIES}/staffel-1/episode-1"), asked, true);
        assert_eq!(run(&mut scraper, &mut site), Ok(()));
        assert!(site.probes.is_empty());
        assert_eq!(site.tasks.len(), 1);
    }
}

#[test]
fn a_concrete_request_skips_only_what_exists_in_that_variant() {
    let mut site = site();
    site.existing = vec![(1, 1, Probe { video_type: DUB_DE, max_episode_number_in_season: Some(1) })];
    let mut scraper = scraper(
        &format!("{SERIES}/staffel-1/episode-1"),
        request(SUB_DE, EpisodesRequest::Unspecified, vec![ExtractorMatch::Any]),
        true,
    );
    assert_eq!(run(&mut scraper, &mut site), Ok(()));
    assert_eq!(site.probes.len(), 3);
    assert_eq!(site.tasks.len(), 1);
    assert_eq!(site.tasks[0].video_type, SUB_DE);
    assert_eq!(site.lookups, vec![selector_of(SUB_DE).unwrap().to_string()]);

    let mut site = self::site();
    site.existing = vec![(1, 1, Probe { video_type: SUB_DE, max_episode_number_in_season: Some(1) })];
    let mut scraper = self::scraper(
        &format!("{SERIES}/staffel-1/episode-1"),
        request(SUB_DE, EpisodesRequest::Unspecified, vec![ExtractorMatch::Any]),
        true,
    );
    assert_eq!(run(&mut scraper, &mut site), Ok(()));
    assert_eq!(site.probes.len(), 2);
    assert!(site.tasks.is_empty());
    assert!(site.navigations.is_empty());
}

#[test]
fn the_first_variant_that_the_page_offers_is_taken() {
    let mut site = site();
    site.offered = vec![(SUB_EN, Some("2")), (DUB_EN, Some("4"))];
    let mut scraper = scraper(
        &format!("{SERIES}/staffel-1/episode-1"),
        request(VideoType::Unspecified, EpisodesRequest::Unspecified, vec![ExtractorMatch::Any]),
        false,
    );
    assert_eq!(run(&mut scraper, &mut site), Ok(()));
    assert_eq!(site.lookups.len(), 3);
    assert_eq!(site.tasks[0].video_type, SUB_EN);
}

#[test]
fn leaf_failures() {
    let episode = format!("{SERIES}/staffel-1/episode-1");
    let any = || request(VideoType::Unspecified, EpisodesRequest::Unspecified, vec![ExtractorMatch::Any]);

    let mut site = site();
    site.offered = vec![];
    assert_eq!(run(&mut scraper(&episode, any(), false), &mut site), Err(ScrapeError::NoStreamsAvailable));
    assert_eq!(site.lookups.len(), 4);

    let mut site = self::site();
    site.streams = vec![];
    assert_eq!(run(&mut scraper(&episode, any(), false), &mut site), Err(ScrapeError::NoStreamsAvailable));

    let mut site = self::site();
    site.offered = vec![(DUB_DE, None)];
    assert_eq!(run(&mut scraper(&episode, any(), false), &mut site), Err(ScrapeError::DiscoveryFailure));

    let mut site = self::site();
    site.streams = vec![(None, "VOE"), (Some("https://[broken"), "VOE")];
    assert_eq!(run(&mut scraper(&episode, any(), false), &mut site), Err(ScrapeError::NoPlayableSource));
    assert!(site.attempts.is_empty());

    let mut site = self::site();
    site.extraction = vec![("Filemoon", Extraction::Failed), ("VOE", Extraction::Failed)];
    assert_eq!(run(&mut scraper(&episode, any(), false), &mut site), Err(ScrapeError::NoPlayableSource));
    assert_eq!(site.attempts.len(), 2);
    assert_eq!(site.waits, vec![true, false, false]);

    let mut site = self::site();
    site.extraction = vec![];
    assert_eq!(run(&mut scraper(&episode, any(), false), &mut site), Err(ScrapeError::NoPlayableSource));
    assert_eq!(site.attempts.len(), 2);
    assert_eq!(site.waits, vec![true]);

    let mut site = self::site();
    let named = request(
        VideoType::Unspecified,
        EpisodesRequest::Unspecified,
        vec![ExtractorMatch::Name("Vidoza".to_string())],
    );
    assert_eq!(run(&mut scraper(&episode, named, false), &mut site), Err(ScrapeError::NoPlayableSource));
    assert!(site.attempts.is_empty());

    let mut site = self::site();
    site.unreachable = vec![episode.clone()];
    assert_eq!(run(&mut scraper(&episode, any(), false), &mut site), Err(ScrapeError::NavigationFailure));

    let mut site = self::site();
    site.episode_lists = vec![];
    assert_eq!(run(&mut scraper(&episode, any(), false), &mut site), Err(ScrapeError::DiscoveryFailure));
}

#[test]
fn scope_failures() {
    let any = || request(VideoType::Unspecified, EpisodesRequest::Unspecified, vec![ExtractorMatch::Any]);

    let mut site = site();
    site.season_labels = Some(vec!["Staffeln:"]);
    assert_eq!(run(&mut scraper(SERIES, any(), false), &mut site), Err(ScrapeError::DiscoveryFailure));
    assert!(site.tasks.is_empty());

    let mut site = self::site();
    site.season_labels = None;
    assert_eq!(run(&mut scraper(SERIES, any(), false), &mut site), Err(ScrapeError::DiscoveryFailure));

    let mut site = self::site();
    site.unreachable = vec![format!("{SERIES}/staffel-1/episode-1")];
    assert_eq!(run(&mut scraper(SERIES, any(), false), &mut site), Err(ScrapeError::NavigationFailure));
    assert_eq!(site.navigations.len(), 1);

    let mut site = self::site();
    site.unreachable = vec![format!("{SERIES}/staffel-2/episode-1")];
    assert_eq!(
        run(&mut scraper(&format!("{SERIES}/staffel-2"), any(), false), &mut site),
        Err(ScrapeError::NavigationFailure)
    );

    let mut site = self::site();
    site.episode_lists = vec![(2, Some(vec![]))];
    assert_eq!(run(&mut scraper(&format!("{SERIES}/staffel-2"), any(), false), &mut site), Ok(()));
    assert!(site.tasks.is_empty());
}

#[test]
fn unsupported_variant_is_refused() {
    let made = Scraper::new(
        ParsedUrl::try_from(SERIES).unwrap(),
        request(VideoType::Dub(Language::Japanese), EpisodesRequest::Unspecified, vec![]),
        DownloadSettings { skip_existing: false },
        catalog(),
    );
    assert_eq!(made.err(), Some(ScrapeError::UnsupportedVariant));
}

#[test]
fn events_out_of_turn_end_the_traversal() {
    let any = || request(VideoType::Unspecified, EpisodesRequest::Unspecified, vec![ExtractorMatch::Any]);
    let mut scraper = scraper(SERIES, any(), false);
    assert_eq!(scraper.step(Event::Waited), Action::Done(Err(ScrapeError::UnexpectedEvent)));
    assert_eq!(
        scraper.scrape(),
        Action::Navigate { url: format!("{SERIES}/staffel-1/episode-1") }
    );
    assert_eq!(scraper.scrape(), Action::Done(Err(ScrapeError::UnexpectedEvent)));

    let mut scraper = self::scraper(SERIES, any(), false);
    assert_eq!(scraper.scrape(), Action::Navigate { url: format!("{SERIES}/staffel-1/episode-1") });
    assert_eq!(scraper.step(Event::Navigated(true)), Action::Wait { page_load: true });
    assert_eq!(scraper.step(Event::Sent), Action::Done(Err(ScrapeError::UnexpectedEvent)));
    assert_eq!(scraper.step(Event::Waited), Action::Done(Err(ScrapeError::UnexpectedEvent)));
}
