//! What passes between the traversal and the caller who runs it.
//!
//! The traversal decides; the caller acts. Each `Action` names one thing to
//! do on the browser session, with the existence check, with an extractor or
//! with the download pipeline, and each `Event` tells what came of it.

use crate::discovery::{EpisodeInfo, EpisodeInfoView};
use crate::existence::Probe;
use crate::request::ScrapeError;
use crate::sources::{catalog_view, priority_views, CandidateSource, ExtractorMatch, ExtractorNames};
use crate::url::{ParsedUrl, Site};
use crate::variant::VideoType;
use vstd::prelude::*;

verus! {

/// What came of asking an extractor for a playable source.
#[derive(Debug, Clone, Copy, PartialEq, Eq)]
pub enum Extraction {
    /// The extractor gave a source.
    Extracted,
    /// The extractor failed.
    Failed,
    /// No extractor knows the platform.
    NoExtractor,
}

/// What came of looking for a language variant on an episode page.
#[derive(Debug, Clone, PartialEq, Eq)]
pub enum VariantLookup {
    /// The page does not offer the variant.
    Absent,
    /// The page offers the variant under this language key, if it names one.
    Present { lang_key: Option<String> },
}

/// What was read off an episode page.
#[derive(Debug, Clone, PartialEq, Eq)]
pub struct EpisodePage {
    /// The title of the episode, as shown.
    pub title: Option<String>,
    /// The labels of the season's episode list.
    pub labels: Vec<String>,
}

/// The links to hosting platforms that a page lists for a language key.
#[derive(Debug, Clone, PartialEq, Eq)]
pub struct StreamList {
    /// The address of the page.
    pub page_url: String,
    /// The target of each link, where it has one.
    pub link_targets: Vec<Option<String>>,
}

/// What came of the action that was pending.
#[derive(Debug, Clone, PartialEq, Eq)]
pub enum Event {
    /// The page was opened, or could not be.
    Navigated(bool),
    /// The pause is over.
    Waited,
    /// The address of the page that the session shows, if it can be told.
    CurrentUrl(Option<String>),
    /// The labels of the season list, or `None` if it could not be read.
    SeasonLabels(Option<Vec<String>>),
    /// What the episode page shows, or `None` if it could not be read.
    EpisodePage(Option<EpisodePage>),
    /// Whether the file probed for exists.
    Exists(bool),
    /// Whether the page offers the variant looked for.
    Variant(VariantLookup),
    /// The links of the page, or `None` if they could not be read.
    Streams(Option<StreamList>),
    /// The name of the platform, or `None` if it could not be read.
    PlatformName(Option<String>),
    /// What the extractor gave.
    Extracted(Extraction),
    /// The task was handed to the download pipeline.
    Sent,
}

/// The unit that is handed to the download pipeline: the episode, the
/// variant it was found in, and the hosting platform that gave the source.
#[derive(Debug, Clone, PartialEq, Eq)]
pub struct DownloadTask {
    pub episode_info: EpisodeInfo,
    pub video_type: VideoType,
    pub source: CandidateSource,
}

/// A `DownloadTask` as mathematical values.
pub struct DownloadTaskView {
    pub episode_info: EpisodeInfoView,
    pub video_type: VideoType,
    pub platform: Seq<char>,
    pub url: Seq<char>,
}

impl View for DownloadTask {
    type V = DownloadTaskView;

    open spec fn view(&self) -> DownloadTaskView {
        DownloadTaskView {
            episode_info: self.episode_info@,
            video_type: self.video_type,
            platform: self.source.name@,
            url: self.source.url@,
        }
    }
}

/// What the caller is to do next.
#[derive(Debug, PartialEq, Eq)]
pub enum Action {
    /// Open the page at `url`.
    Navigate { url: String },
    /// Pause as the caller sees fit between requests; after a navigation,
    /// give the page time to load first.
    Wait { page_load: bool },
    /// Tell the address of the page that the session shows.
    ReadCurrentUrl,
    /// Read the labels of the season list.
    ReadSeasons,
    /// Read the title and the episode list of the episode page.
    ReadEpisodePage,
    /// Tell whether the file of this episode exists under this probe.
    Probe { season: u32, episode: u32, probe: Probe },
    /// Look for the language switch that `selector` selects.
    FindVariant { selector: String },
    /// List the links to hosting platforms under the language key.
    ListStreams { lang_key: String },
    /// Read the name of the platform behind the link with this target.
    ReadPlatformName { lang_key: String, link_target: String },
    /// Ask the extractor of `platform` for a playable source at `url`.
    Extract { platform: String, url: String, referer: String },
    /// Hand the task, with the source just extracted, to the download pipeline.
    Emit(DownloadTask),
    /// The traversal is over.
    Done(Result<(), ScrapeError>),
}

/// An `Action` as mathematical values.
pub enum ActionView {
    Navigate { url: Seq<char> },
    Wait { page_load: bool },
    ReadCurrentUrl,
    ReadSeasons,
    ReadEpisodePage,
    Probe { season: u32, episode: u32, probe: Probe },
    FindVariant { selector: Seq<char> },
    ListStreams { lang_key: Seq<char> },
    ReadPlatformName { lang_key: Seq<char>, link_target: Seq<char> },
    Extract { platform: Seq<char>, url: Seq<char>, referer: Seq<char> },
    Emit(DownloadTaskView),
    Done(Result<(), ScrapeError>),
}

impl View for Action {
    type V = ActionView;

    open spec fn view(&self) -> ActionView {
        match self {
            Action::Navigate { url } => ActionView::Navigate { url: url@ },
            Action::Wait { page_load } => ActionView::Wait { page_load: *page_load },
            Action::ReadCurrentUrl => ActionView::ReadCurrentUrl,
            Action::ReadSeasons => ActionView::ReadSeasons,
            Action::ReadEpisodePage => ActionView::ReadEpisodePage,
            Action::Probe { season, episode, probe } => ActionView::Probe {
                season: *season,
                episode: *episode,
                probe: *probe,
            },
            Action::FindVariant { selector } => ActionView::FindVariant { selector: selector@ },
            Action::ListStreams { lang_key } => ActionView::ListStreams { lang_key: lang_key@ },
            Action::ReadPlatformName { lang_key, link_target } => ActionView::ReadPlatformName {
                lang_key: lang_key@,
                link_target: link_target@,
            },
            Action::Extract { platform, url, referer } => ActionView::Extract {
                platform: platform@,
                url: url@,
                referer: referer@,
            },
            Action::Emit(task) => ActionView::Emit(task@),
            Action::Done(result) => ActionView::Done(*result),
        }
    }
}

/// What a part of the traversal gives back: an action for the caller, or
/// its own end.
#[derive(Debug, PartialEq, Eq)]
pub enum Step {
    Act(Action),
    Finished(Result<(), ScrapeError>),
}

/// A `Step` as mathematical values.
pub enum StepView {
    Act(ActionView),
    Finished(Result<(), ScrapeError>),
}

impl View for Step {
    type V = StepView;

    open spec fn view(&self) -> StepView {
        match self {
            Step::Act(action) => StepView::Act(action@),
            Step::Finished(result) => StepView::Finished(*result),
        }
    }
}

/// What stays the same throughout a traversal.
#[derive(Debug, Clone, PartialEq, Eq)]
pub struct ScrapeConfig {
    /// The series, as the URL names it.
    pub url: ParsedUrl,
    /// The language variant asked for.
    pub language: VideoType,
    /// The variants to look for, in the order to try them, each with the
    /// selector of its language switch.
    pub selectors: Vec<(VideoType, &'static str)>,
    /// Whether episodes that were downloaded before are left out.
    pub skip_existing: bool,
    /// The caller's order of preference among hosting platforms.
    pub extractor_priorities: Vec<ExtractorMatch>,
    /// The names that each extractor answers to.
    pub catalog: Vec<ExtractorNames>,
}

/// A `ScrapeConfig` as mathematical values.
pub struct ConfigView {
    pub site: Site,
    pub name: Seq<char>,
    pub wildcard: bool,
    pub variants: Seq<VideoType>,
    pub selectors: Seq<Seq<char>>,
    pub skip_existing: bool,
    pub priorities: Seq<Option<Seq<char>>>,
    pub catalog: Seq<Seq<Seq<char>>>,
}

impl View for ScrapeConfig {
    type V = ConfigView;

    open spec fn view(&self) -> ConfigView {
        ConfigView {
            site: self.url.site,
            name: self.url.name@,
            wildcard: self.language is Unspecified,
            variants: Seq::new(self.selectors@.len(), |i: int| self.selectors@[i].0),
            selectors: Seq::new(self.selectors@.len(), |i: int| self.selectors@[i].1@),
            skip_existing: self.skip_existing,
            priorities: priority_views(self.extractor_priorities@),
            catalog: catalog_view(self.catalog@),
        }
    }
}

impl ConfigView {
    /// There is a variant to look for, and each variant has a selector.
    pub open spec fn wf(self) -> bool {
        self.variants.len() > 0 && self.selectors.len() == self.variants.len()
    }
}

} // verus!
