//! What the caller asks for, and the scope of the traversal that follows
//! from it.

use crate::sources::ExtractorMatch;
use crate::url::{ParsedUrl, ParsedUrlSeason};
use crate::variant::VideoType;
use vstd::prelude::*;

verus! {

/// Every number, or the numbers listed.
#[derive(Debug, Clone, PartialEq, Eq)]
pub enum AllOrSpecific {
    All,
    Specific(Vec<u32>),
}

impl View for AllOrSpecific {
    type V = Option<Seq<u32>>;

    /// The numbers listed; `None` for every number.
    open spec fn view(&self) -> Option<Seq<u32>> {
        match self {
            AllOrSpecific::All => None,
            AllOrSpecific::Specific(numbers) => Some(numbers@),
        }
    }
}

/// Whether a selection holds the number `n`.
pub open spec fn is_wanted(selection: Option<Seq<u32>>, n: u32) -> bool {
    match selection {
        None => true,
        Some(numbers) => numbers.contains(n),
    }
}

impl AllOrSpecific {
    /// A selection of the same numbers.
    pub fn duplicate(&self) -> (r: AllOrSpecific)
        ensures
            r@ == self@,
    {
        match self {
            AllOrSpecific::All => AllOrSpecific::All,
            AllOrSpecific::Specific(numbers) => {
                let mut copy: Vec<u32> = Vec::new();
                let mut i: usize = 0;
                while i < numbers.len()
                    invariant
                        i <= numbers.len(),
                        copy@ == numbers@.take(i as int),
                    decreases numbers.len() - i,
                {
                    copy.push(numbers[i]);
                    assert(copy@ =~= numbers@.take(i + 1));
                    i += 1;
                }
                assert(copy@ =~= numbers@);
                AllOrSpecific::Specific(copy)
            },
        }
    }

    /// Whether the selection holds the number `n`.
    pub fn contains(&self, n: u32) -> (r: bool)
        ensures
            r == is_wanted(self@, n),
    {
        match self {
            AllOrSpecific::All => true,
            AllOrSpecific::Specific(numbers) => {
                let mut i: usize = 0;
                while i < numbers.len()
                    invariant
                        i <= numbers.len(),
                        self@ == Some(numbers@),
                        forall|j: int| 0 <= j < i ==> numbers@[j] != n,
                    decreases numbers.len() - i,
                {
                    if numbers[i] == n {
                        assert(numbers@[i as int] == n);
                        return true;
                    }
                    i += 1;
                }
                false
            },
        }
    }
}

/// The part of a series that the caller wants.
#[derive(Debug, Clone, PartialEq, Eq)]
pub enum EpisodesRequest {
    /// Whatever the URL refers to.
    Unspecified,
    /// These episodes of one season.
    Episodes(AllOrSpecific),
    /// These seasons.
    Seasons(AllOrSpecific),
}

/// A request for downloads.
#[derive(Debug, Clone, PartialEq, Eq)]
pub struct DownloadRequest {
    pub language: VideoType,
    pub episodes: EpisodesRequest,
    pub extractor_priorities: Vec<ExtractorMatch>,
    pub series_title: Option<String>,
    pub save_directory: Option<String>,
}

/// How the traversal is to behave.
#[derive(Debug, Clone, Copy, PartialEq, Eq)]
pub struct DownloadSettings {
    /// Leave out episodes that were downloaded before.
    pub skip_existing: bool,
}

/// Why a traversal, or a part of it, did not succeed.
#[derive(Debug, Clone, Copy, PartialEq, Eq, Structural)]
pub enum ScrapeError {
    /// The site does not offer the language variant asked for.
    UnsupportedVariant,
    /// A page could not be opened.
    NavigationFailure,
    /// A page could not be read, or the series has no seasons.
    DiscoveryFailure,
    /// The episode is not offered in the variant looked for.
    NoStreamsAvailable,
    /// No hosting platform gave a source that can be played.
    NoPlayableSource,
    /// At least one season or episode of the scope failed.
    Incomplete,
    /// An event arrived that answers no pending action.
    UnexpectedEvent,
}

/// The scope of a traversal.
#[derive(Debug, Clone, PartialEq, Eq)]
pub enum Scope {
    AllSeasons { seasons: AllOrSpecific },
    OneSeason { season: u32, episodes: AllOrSpecific },
    OneEpisode { season: u32, episode: u32 },
}

/// A `Scope` as mathematical values.
pub enum ScopeView {
    AllSeasons { seasons: Option<Seq<u32>> },
    OneSeason { season: u32, episodes: Option<Seq<u32>> },
    OneEpisode { season: u32, episode: u32 },
}

impl View for Scope {
    type V = ScopeView;

    open spec fn view(&self) -> ScopeView {
        match self {
            Scope::AllSeasons { seasons } => ScopeView::AllSeasons { seasons: seasons@ },
            Scope::OneSeason { season, episodes } => ScopeView::OneSeason {
                season: *season,
                episodes: episodes@,
            },
            Scope::OneEpisode { season, episode } => ScopeView::OneEpisode {
                season: *season,
                episode: *episode,
            },
        }
    }
}

/// A request as mathematical values, as far as the scope depends on it.
pub enum RequestedPart {
    Unspecified,
    Episodes(Option<Seq<u32>>),
    Seasons(Option<Seq<u32>>),
}

impl View for EpisodesRequest {
    type V = RequestedPart;

    open spec fn view(&self) -> RequestedPart {
        match self {
            EpisodesRequest::Unspecified => RequestedPart::Unspecified,
            EpisodesRequest::Episodes(episodes) => RequestedPart::Episodes(episodes@),
            EpisodesRequest::Seasons(seasons) => RequestedPart::Seasons(seasons@),
        }
    }
}

/// The scope that a request has with a URL.
///
/// A request that names no part takes its scope from the URL: the episode it
/// names, else every episode of the season it names, else every season.
/// Requested episodes are those of the URL's season, or of season 1 where
/// the URL names none. Requested seasons are taken as they are.
pub open spec fn scope_of(url: Option<ParsedUrlSeason>, part: RequestedPart) -> ScopeView {
    match part {
        RequestedPart::Unspecified => match url {
            Some(s) => match s.episode {
                Some(e) => ScopeView::OneEpisode { season: s.season, episode: e },
                None => ScopeView::OneSeason { season: s.season, episodes: None },
            },
            None => ScopeView::AllSeasons { seasons: None },
        },
        RequestedPart::Episodes(episodes) => ScopeView::OneSeason {
            season: match url {
                Some(s) => s.season,
                None => 1,
            },
            episodes,
        },
        RequestedPart::Seasons(seasons) => ScopeView::AllSeasons { seasons },
    }
}

/// The scope of the traversal for a request on a URL.
pub fn plan_scope(url: &ParsedUrl, part: EpisodesRequest) -> (r: Scope)
    ensures
        r@ == scope_of(url.season, part@),
{
    match part {
        EpisodesRequest::Unspecified => match url.season {
            Some(s) => match s.episode {
                Some(e) => Scope::OneEpisode { season: s.season, episode: e },
                None => Scope::OneSeason { season: s.season, episodes: AllOrSpecific::All },
            },
            None => Scope::AllSeasons { seasons: AllOrSpecific::All },
        },
        EpisodesRequest::Episodes(episodes) => {
            let season = match url.season {
                Some(s) => s.season,
                None => 1,
            };
            Scope::OneSeason { season, episodes }
        },
        EpisodesRequest::Seasons(seasons) => Scope::AllSeasons { seasons },
    }
}

} // verus!
