use regex::Regex;
use site_traversal::url::{supports_url, ParseError, ParsedUrl, ParsedUrlSeason, Site};

#[test]
fn test_supports_url() {
    let is_supported = [
        "https://aniworld.to/anime/stream/detektiv-conan",
        "https://aniworld.to/anime/stream/mushoku-tensei-jobless-reincarnation/staffel-1",
        "https://aniworld.to/anime/stream/mushoku-tensei-jobless-reincarnation/filme",
        "https://aniworld.to/anime/stream/detektiv-conan/staffel-18/episode-2",
        "http://www.aniworld.to/anime/stream/mushoku-tensei-jobless-reincarnation/filme",
        "https://s.to/serie/stream/detektiv-conan",
        "https://s.to/serie/stream/detektiv-conan/filme",
        "https://s.to/serie/stream/detektiv-conan/staffel-5",
        "https://s.to/serie/stream/detektiv-conan/staffel-1/episode-1",
    ];

    for url in is_supported {
        assert!(supports_url(url));
    }
}

#[test]
fn test_parsed_url() {
    let url1 = "https://aniworld.to/anime/stream/detektiv-conan";
    let expected1 = ParsedUrl {
        site: Site::AniWorld,
        name: "detektiv-conan".to_string(),
        season: None,
    };

    let url2 = "https://aniworld.to/anime/stream/mushoku-tensei-jobless-reincarnation/staffel-1";
    let expected2 = ParsedUrl {
        site: Site::AniWorld,
        name: "mushoku-tensei-jobless-reincarnation".to_string(),
        season: Some(ParsedUrlSeason {
            season: 1,
            episode: None,
        }),
    };

    let url3 = "https://s.to/serie/stream/detektiv-conan/staffel-19/episode-20";
    let expected3 = ParsedUrl {
        site: Site::SerienStream,
        name: "detektiv-conan".to_string(),
        season: Some(ParsedUrlSeason {
            season: 19,
            episode: Some(20),
        }),
    };

    let url4 = "https://s.to/serie/stream/detektiv-conan/filme/film-3";
    let expected4 = ParsedUrl {
        site: Site::SerienStream,
        name: "detektiv-conan".to_string(),
        season: Some(ParsedUrlSeason {
            season: 0,
            episode: Some(3),
        }),
    };

    let tests = [
        (url1, expected1),
        (url2, expected2),
        (url3, expected3),
        (url4, expected4),
    ];

    for (input, output) in tests {
        assert_eq!(ParsedUrl::try_from(input).unwrap(), output);
        assert_eq!(ParsedUrl::try_from(&*format!("{input}/")).unwrap(), output);
    }
}

fn series(site: Site, name: &str) -> ParsedUrl {
    ParsedUrl { site, name: name.to_string(), season: None }
}

#[test]
fn base_urls() {
    assert_eq!(Site::AniWorld.get_base_url(), "https://aniworld.to/anime/stream");
    assert_eq!(Site::SerienStream.get_base_url(), "https://s.to/serie/stream");
}

#[test]
fn builders_give_canonical_urls() {
    let url = series(Site::AniWorld, "detektiv-conan");
    assert_eq!(url.get_series_url(), "https://aniworld.to/anime/stream/detektiv-conan");
    assert_eq!(url.get_season_url(0), "https://aniworld.to/anime/stream/detektiv-conan/filme");
    assert_eq!(
        url.get_season_url(18),
        "https://aniworld.to/anime/stream/detektiv-conan/staffel-18"
    );
    assert_eq!(
        url.get_episode_url(0, 7),
        "https://aniworld.to/anime/stream/detektiv-conan/filme/film-7"
    );
    assert_eq!(
        url.get_episode_url(18, 2),
        "https://aniworld.to/anime/stream/detektiv-conan/staffel-18/episode-2"
    );
    let other = series(Site::SerienStream, "x");
    assert_eq!(
        other.get_episode_url(4294967295, 1000),
        "https://s.to/serie/stream/x/staffel-4294967295/episode-1000"
    );
    assert_eq!(other.get_season_url(10), "https://s.to/serie/stream/x/staffel-10");
}

#[test]
fn round_trip_of_seasons_and_episodes() {
    for site in [Site::AniWorld, Site::SerienStream] {
        let url = series(site, "one-piece");
        assert_eq!(ParsedUrl::try_from(&url.get_series_url()).unwrap(), url);
        for season in [0u32, 1, 2, 9, 10, 99, 100, 12345, 4294967295] {
            let text = url.get_season_url(season);
            let expected = ParsedUrl {
                site,
                name: "one-piece".to_string(),
                season: Some(ParsedUrlSeason { season, episode: None }),
            };
            assert_eq!(ParsedUrl::try_from(&text).unwrap(), expected);
            assert_eq!(ParsedUrl::try_from(&format!("{text}/")).unwrap(), expected);
            for episode in [1u32, 7, 10, 101, 4294967295] {
                let text = url.get_episode_url(season, episode);
                let expected = ParsedUrl {
                    site,
                    name: "one-piece".to_string(),
                    season: Some(ParsedUrlSeason { season, episode: Some(episode) }),
                };
                assert_eq!(ParsedUrl::try_from(&text).unwrap(), expected);
                assert_eq!(ParsedUrl::try_from(&format!("{text}/")).unwrap(), expected);
            }
        }
    }
}

#[test]
fn keywords_are_read_in_any_case() {
    let expected = ParsedUrl {
        site: Site::SerienStream,
        name: "Dark".to_string(),
        season: Some(ParsedUrlSeason { season: 2, episode: Some(5) }),
    };
    assert_eq!(
        ParsedUrl::try_from("HTTP://WWW.S.TO/Serie/STREAM/Dark/Staffel-2/EPISODE-5").unwrap(),
        expected
    );
    assert_eq!(
        ParsedUrl::try_from("http://s.to/\u{17f}erie/\u{17f}tream/Dark/\u{17f}taffel-2/epi\u{17f}ode-5")
            .unwrap(),
        expected
    );
}

#[test]
fn unrecognized_site_is_rejected() {
    for text in [
        "",
        "https://",
        "https://example.com/anime/stream/x",
        "https://aniworld.to/serie/stream/x",
        "https://s.to/anime/stream/x",
        "ftp://s.to/serie/stream/x",
        "s.to/serie/stream/x",
        "https://s.to/serie/stream",
        "https://s.to/serie/stream/",
        "https://\u{17f}.to/serie/stream/x",
        " https://s.to/serie/stream/x",
    ] {
        assert_eq!(ParsedUrl::try_from(text), Err(ParseError::UnrecognizedSite), "{text:?}");
    }
}

#[test]
fn malformed_path_is_rejected() {
    for tail in [
        "/",
        "a b",
        "x//",
        "x/staffel-",
        "x/staffel-0",
        "x/staffel-01",
        "x/staffel-one",
        "x/staffel-1x",
        "x/staffel--1",
        "x/staffel-+1",
        "x/staffel-4294967296",
        "x/staffel-1/episode-",
        "x/staffel-1/episode-0",
        "x/staffel-1/episode-two",
        "x/staffel-1/episode-4294967296",
        "x/staffel-1/film-2",
        "x/staffel-1/episode-2/3",
        "x/staffel-1/episode-2//",
        "x/filme/episode-2",
        "x/filme/film-0",
        "x/filme/film-x",
        "x/movies",
        "x/0",
        "x/staffel-1\n",
    ] {
        let text = format!("https://s.to/serie/stream/{tail}");
        assert_eq!(ParsedUrl::try_from(&text), Err(ParseError::MalformedPath), "{text:?}");
    }
}

fn expected_by_pattern(pattern: &Regex, value: &str) -> Option<ParsedUrl> {
    let captures = pattern.captures(value)?;
    let groups: Vec<&str> = captures.iter().skip(1).filter_map(|x| x.map(|y| y.as_str())).collect();
    let site = *groups.first()?;
    let name = *groups.get(1)?;
    let site = if site.eq_ignore_ascii_case("aniworld") {
        Site::AniWorld
    } else if site.eq_ignore_ascii_case("s") {
        Site::SerienStream
    } else {
        return None;
    };
    let season = match groups.get(2) {
        Some(season) => {
            let number = if season.eq_ignore_ascii_case("filme") {
                0
            } else {
                season.parse::<u32>().ok()?
            };
            let episode = match groups.get(3) {
                Some(episode) => Some(episode.parse::<u32>().ok()?),
                None => None,
            };
            Some(ParsedUrlSeason { season: number, episode })
        }
        None => None,
    };
    Some(ParsedUrl { site, name: name.to_string(), season })
}

#[test]
fn grammar_agrees_with_its_pattern() {
    let pattern = Regex::new(
        r#"(?i)^https?://(?:www\.)?(?:(aniworld)\.to/anime|(s)\.to/serie)/stream/([^/\s]+)(?:/(?:(?:staffel-([1-9][0-9]*)(?:/(?:episode-([1-9][0-9]*)/?)?)?)|(?:(filme)(?:/(?:film-([1-9][0-9]*)/?)?)?))?)?$"#,
    )
    .unwrap();
    let schemes = ["http://", "https://", "HTTPS://", "hTTp://", "http\u{17f}://", "ftp://", "https:/", ""];
    let hosts = [
        "aniworld.to/anime",
        "www.aniworld.to/anime",
        "WWW.ANIWORLD.TO/ANIME",
        "s.to/serie",
        "www.S.to/Serie",
        "www.www.s.to/serie",
        "\u{17f}.to/serie",
        "s.to/\u{17f}erie",
        "aniworld.to/serie",
        "s.to/anime",
        "aniworldXto/anime",
        "example.com/anime",
    ];
    let streams = ["/stream/", "/STREAM/", "/\u{17f}tream/", "/stream", "/streams/"];
    let slugs = ["x", "detektiv-conan", "", "a b", "a\u{a0}b", "a\u{3000}", "\u{e4}\u{df}", "a?b#c", "A.B_c"];
    let tails = [
        "",
        "/",
        "//",
        "/staffel-1",
        "/staffel-1/",
        "/staffel-01",
        "/staffel-0",
        "/staffel-10",
        "/staffel-4294967295",
        "/staffel-4294967296",
        "/staffel-99999999999999999999",
        "/Staffel-3/Episode-4",
        "/staffel-1/episode-2/",
        "/staffel-1/episode-2//",
        "/staffel-1/episode-02",
        "/staffel-1/episode-0",
        "/staffel-1/episode-4294967296",
        "/staffel-1/film-2",
        "/staffel-1/episode-2/x",
        "/staffel-1//episode-2",
        "/\u{17f}taffel-1/epi\u{17f}ode-2",
        "/filme",
        "/FILME/",
        "/filme/film-3",
        "/Filme/Film-3/",
        "/filme/episode-3",
        "/filme/film-0",
        "/filme/film-99999999999",
        "/filmes",
        "/staffel-1/episode-",
        "/staffel--1",
        "/staffel-+1",
        "/staffel-1 ",
        "/staffel-1\n",
        "/staffel-\u{661}",
        "/episode-1",
    ];
    let mut accepted = 0;
    for scheme in schemes {
        for host in hosts {
            for stream in streams {
                for slug in slugs {
                    for tail in tails {
                        let text = format!("{scheme}{host}{stream}{slug}{tail}");
                        let expected = expected_by_pattern(&pattern, &text);
                        let got = ParsedUrl::try_from(&text).ok();
                        assert_eq!(got, expected, "{text:?}");
                        if got.is_some() {
                            accepted += 1;
                        }
                    }
                }
            }
        }
    }
    assert!(accepted > 1000);
}

fn pattern() -> Regex {
    Regex::new(
        r#"(?i)^https?://(?:www\.)?(?:(aniworld)\.to/anime|(s)\.to/serie)/stream/([^/\s]+)(?:/(?:(?:staffel-([1-9][0-9]*)(?:/(?:episode-([1-9][0-9]*)/?)?)?)|(?:(filme)(?:/(?:film-([1-9][0-9]*)/?)?)?))?)?$"#,
    )
    .unwrap()
}

#[test]
fn every_character_is_read_as_the_pattern_reads_it() {
    let pattern = pattern();
    let mut accepted = 0;
    for code in (0u32..=0x3100).chain(0xFEF0..=0xFF70).chain(0x1F600..=0x1F610) {
        let Some(c) = char::from_u32(code) else { continue };
        let texts = [
            format!("https://s.to/serie/stream/a{c}b"),
            format!("https://s.to/serie/stream/{c}"),
            format!("https://s.to/serie/stream/x/{c}taffel-1"),
            format!("https://s.to/serie/stream/x/staffel-1/epi{c}ode-3"),
            format!("https://s.to/serie/stream/x/staffel-{c}"),
            format!("https://s.to/serie/stream/x/{c}ilme"),
            format!("http{c}://{c}.to/serie/stream/x"),
            format!("https://aniworld.to/anime/{c}tream/x{c}"),
            format!("https://aniworld.to/anime/stream/x/filme/film-1{c}"),
            format!("https://{c}niworld.to/anime/stream/x"),
        ];
        for text in texts {
            let expected = expected_by_pattern(&pattern, &text);
            let got = ParsedUrl::try_from(&text).ok();
            assert_eq!(got, expected, "{text:?}");
            if got.is_some() {
                accepted += 1;
            }
        }
    }
    assert!(accepted > 10000);
}
