//! The URL grammar of the two supported sites:
//!
//! ```text
//! http[s]://[www.]{site}/stream/{slug}[/(staffel-{N}[/episode-{M}] | filme[/film-{M}])][/]
//! ```
//!
//! Keywords are matched without regard to case; the slug is kept as written.
//! Season `0` stands for the movies of a series.

use crate::text::{
    chars_of, decimal_digits, is_space, is_space_char, positive_number, positive_number_in,
    push_decimal, spells_keyword, spells_keyword_in, starts_with_keyword,
};
use vstd::prelude::*;

verus! {

/// The two supported site families.
#[derive(Debug, Clone, Copy, PartialEq, Eq, Structural)]
pub enum Site {
    AniWorld,
    SerienStream,
}

/// The season that a URL names and, if it names one, the episode.
/// Season `0` is the movies pseudo-season.
#[derive(Debug, Clone, Copy, PartialEq, Eq)]
pub struct ParsedUrlSeason {
    pub season: u32,
    pub episode: Option<u32>,
}

/// A reference to a series, optionally to one of its seasons, optionally to
/// one episode of that season.
#[derive(Debug, Clone, PartialEq, Eq)]
pub struct ParsedUrl {
    pub site: Site,
    pub name: String,
    pub season: Option<ParsedUrlSeason>,
}

/// What a `ParsedUrl` holds, as mathematical values.
pub struct UrlParts {
    pub site: Site,
    pub name: Seq<char>,
    pub season: Option<ParsedUrlSeason>,
}

impl View for ParsedUrl {
    type V = UrlParts;

    open spec fn view(&self) -> UrlParts {
        UrlParts { site: self.site, name: self.name@, season: self.season }
    }
}

/// Why a text is not a URL of a supported site.
#[derive(Debug, Clone, Copy, PartialEq, Eq, Structural)]
pub enum ParseError {
    /// The text does not begin with the address of a supported site.
    UnrecognizedSite,
    /// The site is recognized, but what follows is not a series, season or
    /// episode path.
    MalformedPath,
}

/// Host and fixed path of a site, without scheme.
pub open spec fn site_path(site: Site) -> Seq<char> {
    match site {
        Site::AniWorld => "aniworld.to/anime/stream"@,
        Site::SerienStream => "s.to/serie/stream"@,
    }
}

/// The address under which the series of a site are found.
pub open spec fn base_url_text(site: Site) -> Seq<char> {
    "https://"@ + site_path(site)
}

/// The path segment that names a season: `filme` for the movies, `staffel-`
/// and the season's numeral otherwise.
pub open spec fn season_segment(season: u32) -> Seq<char> {
    if season == 0 {
        "filme"@
    } else {
        "staffel-"@ + decimal_digits(season as nat)
    }
}

/// The path segment that names an episode of a season: `film-` and the
/// numeral for a movie, `episode-` and the numeral otherwise.
pub open spec fn item_segment(season: u32, episode: u32) -> Seq<char> {
    (if season == 0 {
        "film-"@
    } else {
        "episode-"@
    }) + decimal_digits(episode as nat)
}

/// The path below a series that leads to `season`, and to its episode if
/// one is given. Each segment is preceded by a slash.
pub open spec fn season_path(season: Option<ParsedUrlSeason>) -> Seq<char> {
    match season {
        None => Seq::<char>::empty(),
        Some(s) => match s.episode {
            None => seq!['/'] + season_segment(s.season),
            Some(e) => seq!['/'] + season_segment(s.season) + (seq!['/'] + item_segment(
                s.season,
                e,
            )),
        },
    }
}

/// The canonical URL of what `parts` refer to.
pub open spec fn url_text(parts: UrlParts) -> Seq<char> {
    base_url_text(parts.site) + seq!['/'] + parts.name + season_path(parts.season)
}

/// The canonical URL of a series.
pub open spec fn series_url_text(site: Site, name: Seq<char>) -> Seq<char> {
    url_text(UrlParts { site, name, season: None })
}

/// The canonical URL of a season of a series; season `0` is the movies.
pub open spec fn season_url_text(site: Site, name: Seq<char>, season: u32) -> Seq<char> {
    url_text(UrlParts { site, name, season: Some(ParsedUrlSeason { season, episode: None }) })
}

/// The canonical URL of an episode of a season, or of a movie when `season`
/// is `0`.
pub open spec fn episode_url_text(site: Site, name: Seq<char>, season: u32, episode: u32) -> Seq<
    char,
> {
    url_text(
        UrlParts { site, name, season: Some(ParsedUrlSeason { season, episode: Some(episode) }) },
    )
}

/// A series slug: not empty, and free of slashes and white space.
pub open spec fn is_slug(s: Seq<char>) -> bool {
    &&& s.len() > 0
    &&& forall|i: int| 0 <= i < s.len() ==> #[trigger] s[i] != '/' && !is_space(s[i])
}

/// `s` without its last character if that is a slash.
pub open spec fn without_trailing_slash(s: Seq<char>) -> Seq<char> {
    if s.len() > 0 && s.last() == '/' {
        s.drop_last()
    } else {
        s
    }
}

/// Length of the scheme at the start of `s`, separator included.
pub open spec fn scheme_len(s: Seq<char>) -> Option<nat> {
    if starts_with_keyword(s, "https://"@) {
        Some("https://"@.len())
    } else if starts_with_keyword(s, "http://"@) {
        Some("http://"@.len())
    } else {
        None
    }
}

/// Length of the optional `www.` at the start of `s`.
pub open spec fn www_len(s: Seq<char>) -> nat {
    if starts_with_keyword(s, "www."@) {
        "www."@.len()
    } else {
        0
    }
}

/// The site whose host and fixed path, followed by a slash, `s` starts with.
/// The one-letter host of the second site has to be an ASCII letter.
pub open spec fn site_at(s: Seq<char>) -> Option<Site> {
    if starts_with_keyword(s, site_path(Site::AniWorld) + seq!['/']) {
        Some(Site::AniWorld)
    } else if starts_with_keyword(s, site_path(Site::SerienStream) + seq!['/']) && s[0]
        != '\u{17f}' {
        Some(Site::SerienStream)
    } else {
        None
    }
}

/// Splits `s` into the site it addresses and what follows the site's fixed
/// path and slash.
pub open spec fn split_site(s: Seq<char>) -> Option<(Site, Seq<char>)> {
    match scheme_len(s) {
        None => None,
        Some(n) => {
            let host = s.skip(n as int);
            let rest = host.skip(www_len(host) as int);
            match site_at(rest) {
                None => None,
                Some(site) => Some((site, rest.skip(site_path(site).len() as int + 1))),
            }
        },
    }
}

/// Length of the first path segment of `s`: the characters before the first
/// slash, or all of `s` if it holds none.
pub open spec fn segment_len(s: Seq<char>) -> nat
    decreases s.len(),
{
    if s.len() == 0 || s[0] == '/' {
        0
    } else {
        1 + segment_len(s.drop_first())
    }
}

/// The number that follows the keyword `kw` in `seg`, where `seg` is the
/// keyword and the numeral of a positive number.
pub open spec fn numbered(seg: Seq<char>, kw: Seq<char>) -> Option<u32> {
    if starts_with_keyword(seg, kw) {
        positive_number(seg.skip(kw.len() as int))
    } else {
        None
    }
}

/// The season that the segment `seg` names.
pub open spec fn season_number(seg: Seq<char>) -> Option<u32> {
    if spells_keyword(seg, "filme"@) {
        Some(0)
    } else {
        numbered(seg, "staffel-"@)
    }
}

/// The episode that `seg` names: a movie of the movies pseudo-season, an
/// episode of any other season.
pub open spec fn item_number(movies: bool, seg: Seq<char>) -> Option<u32> {
    if movies {
        numbered(seg, "film-"@)
    } else {
        numbered(seg, "episode-"@)
    }
}

/// Reads a season segment and, after a slash, an episode segment.
pub open spec fn parse_season_path(s: Seq<char>) -> Option<ParsedUrlSeason> {
    let n = segment_len(s) as int;
    match season_number(s.take(n)) {
        None => None,
        Some(season) => if n == s.len() {
            Some(ParsedUrlSeason { season, episode: None })
        } else {
            match item_number(season == 0, s.skip(n + 1)) {
                None => None,
                Some(episode) => Some(ParsedUrlSeason { season, episode: Some(episode) }),
            }
        },
    }
}

/// Reads the slug and, after a slash, the season path.
pub open spec fn parse_path(site: Site, s: Seq<char>) -> Option<UrlParts> {
    let n = segment_len(s) as int;
    let name = s.take(n);
    if !is_slug(name) {
        None
    } else if n == s.len() {
        Some(UrlParts { site, name, season: None })
    } else {
        match parse_season_path(s.skip(n + 1)) {
            None => None,
            Some(season) => Some(UrlParts { site, name, season: Some(season) }),
        }
    }
}

/// What a text refers to, or why it is no URL of a supported site.
pub open spec fn parse_url_text(text: Seq<char>) -> Result<UrlParts, ParseError> {
    match split_site(without_trailing_slash(text)) {
        None => Err(ParseError::UnrecognizedSite),
        Some((site, rest)) => match parse_path(site, rest) {
            None => Err(ParseError::MalformedPath),
            Some(parts) => Ok(parts),
        },
    }
}

/// `k` is the length of the first segment of `s` if no slash stands before
/// position `k` and a slash, or the end, stands at it.
pub proof fn lemma_segment_len(s: Seq<char>, k: int)
    requires
        0 <= k <= s.len(),
        forall|i: int| 0 <= i < k ==> #[trigger] s[i] != '/',
        k == s.len() || s[k] == '/',
    ensures
        segment_len(s) == k,
    decreases k,
{
    if k > 0 {
        lemma_segment_len(s.drop_first(), k - 1);
    }
}

/// If `s[from..end]` starts with a spelling of `kw`, the position after it.
fn skip_keyword(s: &Vec<char>, from: usize, end: usize, kw: &str) -> (r: Option<usize>)
    requires
        from <= end <= s.len(),
    ensures
        r is Some == starts_with_keyword(s@.subrange(from as int, end as int), kw@),
        r matches Some(p) ==> p == from + kw@.len() && p <= end,
{
    let k = chars_of(kw);
    if end - from < k.len() {
        return None;
    }
    let to = from + k.len();
    assert(s@.subrange(from as int, end as int).take(k.len() as int) =~= s@.subrange(
        from as int,
        to as int,
    ));
    if spells_keyword_in(s, from, to, &k) {
        Some(to)
    } else {
        None
    }
}

/// The site keyword as the parser reads it: host, fixed path and slash.
fn site_keyword(site: Site) -> (r: &'static str)
    ensures
        r@ == site_path(site) + seq!['/'],
{
    proof {
        reveal_strlit("aniworld.to/anime/stream");
        reveal_strlit("s.to/serie/stream");
        reveal_strlit("aniworld.to/anime/stream/");
        reveal_strlit("s.to/serie/stream/");
    }
    match site {
        Site::AniWorld => {
            let r = "aniworld.to/anime/stream/";
            assert(r@ =~= "aniworld.to/anime/stream"@ + seq!['/']);
            r
        },
        Site::SerienStream => {
            let r = "s.to/serie/stream/";
            assert(r@ =~= "s.to/serie/stream"@ + seq!['/']);
            r
        },
    }
}

/// Reads scheme, optional `www.` and site at the start of `s[0..end]`, and
/// gives the site with the position where the slug starts.
fn split_site_in(s: &Vec<char>, end: usize) -> (r: Option<(Site, usize)>)
    requires
        end <= s.len(),
    ensures
        match r {
            None => split_site(s@.subrange(0, end as int)) is None,
            Some((site, start)) => start <= end && split_site(s@.subrange(0, end as int)) == Some(
                (site, s@.subrange(start as int, end as int)),
            ),
        },
{
    let ghost t = s@.subrange(0, end as int);
    let after_scheme = match skip_keyword(s, 0, end, "https://") {
        Some(p) => p,
        None => match skip_keyword(s, 0, end, "http://") {
            Some(p) => p,
            None => {
                return None;
            },
        },
    };
    let ghost host = t.skip(after_scheme as int);
    assert(host =~= s@.subrange(after_scheme as int, end as int));
    let after_www = match skip_keyword(s, after_scheme, end, "www.") {
        Some(p) => p,
        None => after_scheme,
    };
    let ghost rest = host.skip(www_len(host) as int);
    assert(rest =~= s@.subrange(after_www as int, end as int));
    match skip_keyword(s, after_www, end, site_keyword(Site::AniWorld)) {
        Some(p) => {
            assert(rest.skip(site_path(Site::AniWorld).len() as int + 1) =~= s@.subrange(
                p as int,
                end as int,
            ));
            Some((Site::AniWorld, p))
        },
        None => match skip_keyword(s, after_www, end, site_keyword(Site::SerienStream)) {
            Some(p) => {
                assert(rest[0] == s[after_www as int]);
                if s[after_www] == '\u{17f}' {
                    return None;
                }
                assert(rest.skip(site_path(Site::SerienStream).len() as int + 1) =~= s@.subrange(
                    p as int,
                    end as int,
                ));
                Some((Site::SerienStream, p))
            },
            None => None,
        },
    }
}

/// The end of the path segment that starts at `from`.
fn segment_end(s: &Vec<char>, from: usize, end: usize) -> (r: usize)
    requires
        from <= end <= s.len(),
    ensures
        from <= r <= end,
        r - from == segment_len(s@.subrange(from as int, end as int)),
{
    let ghost part = s@.subrange(from as int, end as int);
    let mut i: usize = from;
    while i < end && s[i] != '/'
        invariant
            from <= i <= end <= s.len(),
            part == s@.subrange(from as int, end as int),
            forall|j: int| 0 <= j < i - from ==> #[trigger] part[j] != '/',
        decreases end - i,
    {
        i += 1;
    }
    proof {
        if i < end {
            assert(part[i - from] == s[i as int]);
        }
        lemma_segment_len(part, i - from);
    }
    i
}

fn is_slug_in(s: &Vec<char>, from: usize, to: usize) -> (r: bool)
    requires
        from <= to <= s.len(),
    ensures
        r == is_slug(s@.subrange(from as int, to as int)),
{
    if from == to {
        return false;
    }
    let ghost part = s@.subrange(from as int, to as int);
    let mut i: usize = from;
    while i < to
        invariant
            from <= i <= to <= s.len(),
            part == s@.subrange(from as int, to as int),
            forall|j: int| 0 <= j < i - from ==> #[trigger] part[j] != '/' && !is_space(part[j]),
        decreases to - i,
    {
        assert(part[i - from] == s[i as int]);
        if s[i] == '/' || is_space_char(s[i]) {
            return false;
        }
        i += 1;
    }
    true
}

/// Reads `s[from..to]` as the keyword `kw` and the numeral of a positive number.
fn numbered_in(s: &Vec<char>, from: usize, to: usize, kw: &str) -> (r: Option<u32>)
    requires
        from <= to <= s.len(),
    ensures
        r == numbered(s@.subrange(from as int, to as int), kw@),
{
    match skip_keyword(s, from, to, kw) {
        None => None,
        Some(p) => {
            assert(s@.subrange(from as int, to as int).skip(kw@.len() as int) =~= s@.subrange(
                p as int,
                to as int,
            ));
            positive_number_in(s, p, to)
        },
    }
}

/// Reads `s[from..end]` as a season segment and, after a slash, an episode
/// segment.
fn parse_season_path_in(s: &Vec<char>, from: usize, end: usize) -> (r: Option<ParsedUrlSeason>)
    requires
        from <= end <= s.len(),
    ensures
        r == parse_season_path(s@.subrange(from as int, end as int)),
{
    let ghost part = s@.subrange(from as int, end as int);
    let seg_end = segment_end(s, from, end);
    assert(part.take(seg_end - from) =~= s@.subrange(from as int, seg_end as int));
    let movies = chars_of("filme");
    let season = if spells_keyword_in(s, from, seg_end, &movies) {
        0
    } else {
        match numbered_in(s, from, seg_end, "staffel-") {
            None => {
                return None;
            },
            Some(n) => n,
        }
    };
    if seg_end == end {
        return Some(ParsedUrlSeason { season, episode: None });
    }
    assert(part.skip(seg_end - from + 1) =~= s@.subrange(seg_end + 1, end as int));
    let item = if season == 0 {
        numbered_in(s, seg_end + 1, end, "film-")
    } else {
        numbered_in(s, seg_end + 1, end, "episode-")
    };
    match item {
        None => None,
        Some(episode) => Some(ParsedUrlSeason { season, episode: Some(episode) }),
    }
}

/// Whether `url` is a URL of a supported site.
pub fn supports_url(url: &str) -> (r: bool)
    ensures
        r == parse_url_text(url@) is Ok,
{
    ParsedUrl::try_from(url).is_ok()
}

impl Site {
    /// The address under which the series of this site are found.
    pub fn get_base_url(&self) -> (r: &'static str)
        ensures
            r@ == base_url_text(*self),
    {
        proof {
            reveal_strlit("https://");
            reveal_strlit("aniworld.to/anime/stream");
            reveal_strlit("s.to/serie/stream");
            reveal_strlit("https://aniworld.to/anime/stream");
            reveal_strlit("https://s.to/serie/stream");
        }
        match self {
            Site::AniWorld => {
                let r = "https://aniworld.to/anime/stream";
                assert(r@ =~= "https://"@ + "aniworld.to/anime/stream"@);
                r
            },
            Site::SerienStream => {
                let r = "https://s.to/serie/stream";
                assert(r@ =~= "https://"@ + "s.to/serie/stream"@);
                r
            },
        }
    }
}

impl ParsedUrl {
    /// Parses the text of a URL.
    ///
    /// Succeeds exactly on the texts of the grammar, with what they refer to.
    /// Fails with `UnrecognizedSite` when the text does not start with the
    /// address of a supported site, and with `MalformedPath` when it does but
    /// the rest is no series, season or episode path.
    pub fn try_from(value: &str) -> (r: Result<ParsedUrl, ParseError>)
        ensures
            match r {
                Ok(url) => parse_url_text(value@) == Ok::<UrlParts, ParseError>(url@),
                Err(e) => parse_url_text(value@) == Err::<UrlParts, ParseError>(e),
            },
    {
        let chars = chars_of(value);
        let len = chars.len();
        let end = if len > 0 && chars[len - 1] == '/' {
            len - 1
        } else {
            len
        };
        let ghost t = without_trailing_slash(value@);
        assert(t =~= chars@.subrange(0, end as int));
        let (site, start) = match split_site_in(&chars, end) {
            None => {
                return Err(ParseError::UnrecognizedSite);
            },
            Some(found) => found,
        };
        let ghost path = chars@.subrange(start as int, end as int);
        let slug_end = segment_end(&chars, start, end);
        assert(path.take(slug_end - start) =~= chars@.subrange(start as int, slug_end as int));
        if !is_slug_in(&chars, start, slug_end) {
            return Err(ParseError::MalformedPath);
        }
        let name = value.substring_char(start, slug_end).to_owned();
        if slug_end == end {
            return Ok(ParsedUrl { site, name, season: None });
        }
        assert(path.skip(slug_end - start + 1) =~= chars@.subrange(slug_end + 1, end as int));
        match parse_season_path_in(&chars, slug_end + 1, end) {
            None => Err(ParseError::MalformedPath),
            Some(season) => Ok(ParsedUrl { site, name, season: Some(season) }),
        }
    }

    /// The canonical URL of the series.
    pub fn get_series_url(&self) -> (r: String)
        ensures
            r@ == series_url_text(self.site, self.name@),
    {
        proof {
            reveal_strlit("/");
        }
        let mut out = String::from_str(self.site.get_base_url());
        out.append("/");
        out.append(self.name.as_str());
        assert(out@ =~= series_url_text(self.site, self.name@));
        out
    }

    /// The canonical URL of a season of the series; season `0` is the movies.
    pub fn get_season_url(&self, season: u32) -> (r: String)
        ensures
            r@ == season_url_text(self.site, self.name@, season),
    {
        proof {
            reveal_strlit("/filme");
            reveal_strlit("filme");
            reveal_strlit("/staffel-");
            reveal_strlit("staffel-");
            assert("/filme"@ =~= seq!['/'] + "filme"@);
            assert("/staffel-"@ =~= seq!['/'] + "staffel-"@);
        }
        let mut out = self.get_series_url();
        if season == 0 {
            out.append("/filme");
        } else {
            out.append("/staffel-");
            push_decimal(&mut out, season);
        }
        assert(out@ =~= season_url_text(self.site, self.name@, season));
        out
    }

    /// The canonical URL of an episode of a season, or of a movie when
    /// `season` is `0`.
    pub fn get_episode_url(&self, season: u32, episode: u32) -> (r: String)
        ensures
            r@ == episode_url_text(self.site, self.name@, season, episode),
    {
        proof {
            reveal_strlit("/film-");
            reveal_strlit("film-");
            reveal_strlit("/episode-");
            reveal_strlit("episode-");
            assert("/film-"@ =~= seq!['/'] + "film-"@);
            assert("/episode-"@ =~= seq!['/'] + "episode-"@);
        }
        let mut out = self.get_season_url(season);
        if season == 0 {
            out.append("/film-");
        } else {
            out.append("/episode-");
        }
        push_decimal(&mut out, episode);
        assert(out@ =~= episode_url_text(self.site, self.name@, season, episode));
        out
    }
}

} // verus!
