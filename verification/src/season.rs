//! The seasons of a series, and the episodes of a season: each scope finds
//! out what there is, and goes through what is wanted of it, one item after
//! the other. An item that fails is noted; the items after it are attempted
//! all the same.

use crate::batch::{Batch, BatchState};
use crate::discovery::{episode_info_of, seasons_of_labels, EpisodeInfo, SeasonsInfo};
use crate::protocol::{Action, ActionView, ConfigView, Event, ScrapeConfig};
use crate::request::{AllOrSpecific, ScrapeError};
use crate::text::{
    chars_of, eq_ignoring_ascii_case, option_text_view, same_ignoring_ascii_case, text_views,
};
use crate::url::episode_url_text;
use vstd::prelude::*;

verus! {

/// What a scope waits for.
#[derive(Debug, Clone, Copy, PartialEq, Eq, Structural)]
pub enum ScopePhase {
    /// The address of the page that the session shows.
    Locating,
    /// The page to open.
    Navigating,
    /// The pause after the page was opened.
    Settling,
    /// What the page lists.
    Discovering,
    /// The end of the item that is being attempted.
    Running,
    /// Nothing: the scope is over.
    Done,
}

/// The end of a scope: success if every attempt went well.
pub open spec fn aggregate(batch: BatchState) -> Result<(), ScrapeError> {
    if batch.succeeded() {
        Ok(())
    } else {
        Err(ScrapeError::Incomplete)
    }
}

/// What a season gives back: an action for the caller, an episode to run,
/// or its own end.
#[derive(Debug, PartialEq, Eq)]
pub enum SeasonStep {
    Act(Action),
    RunEpisode { episode: u32, goto: bool, max: Option<u32> },
    Finished(Result<(), ScrapeError>),
}

/// A `SeasonStep` as mathematical values.
pub enum SeasonStepView {
    Act(ActionView),
    RunEpisode { episode: u32, goto: bool, max: Option<u32> },
    Finished(Result<(), ScrapeError>),
}

impl View for SeasonStep {
    type V = SeasonStepView;

    open spec fn view(&self) -> SeasonStepView {
        match self {
            SeasonStep::Act(action) => SeasonStepView::Act(action@),
            SeasonStep::RunEpisode { episode, goto, max } => SeasonStepView::RunEpisode {
                episode: *episode,
                goto: *goto,
                max: *max,
            },
            SeasonStep::Finished(result) => SeasonStepView::Finished(*result),
        }
    }
}

/// The state of a season as mathematical values.
pub struct SeasonRunState {
    pub season: u32,
    /// The episodes that are wanted; `None` for all.
    pub selection: Option<Seq<u32>>,
    pub phase: ScopePhase,
    /// The episodes of the season, once they are known.
    pub batch: Option<BatchState>,
    /// The highest episode number of the season, once it is known.
    pub max: Option<u32>,
}

impl SeasonRunState {
    /// The season ends with the error `e`.
    pub open spec fn fail(self, e: ScrapeError) -> (SeasonRunState, SeasonStepView) {
        (SeasonRunState { phase: ScopePhase::Done, ..self }, SeasonStepView::Finished(Err(e)))
    }

    /// The start of a season: the session is asked where it is.
    pub open spec fn begin(season: u32, selection: Option<Seq<u32>>) -> (
        SeasonRunState,
        SeasonStepView,
    ) {
        (
            SeasonRunState {
                season,
                selection,
                phase: ScopePhase::Locating,
                batch: None,
                max: None,
            },
            SeasonStepView::Act(ActionView::ReadCurrentUrl),
        )
    }

    /// Goes on with the wanted episode that is next, or ends the season.
    /// Only the first episode of the list is taken to be on the page that
    /// the session shows; every other episode has its page opened.
    pub open spec fn advance(self) -> (SeasonRunState, SeasonStepView) {
        match self.batch {
            Some(batch) => match batch.current() {
                Some(episode) => (
                    SeasonRunState { phase: ScopePhase::Running, ..self },
                    SeasonStepView::RunEpisode { episode, goto: batch.position > 0, max: self.max },
                ),
                None => (
                    SeasonRunState { phase: ScopePhase::Done, ..self },
                    SeasonStepView::Finished(aggregate(batch)),
                ),
            },
            None => self.fail(ScrapeError::UnexpectedEvent),
        }
    }

    /// The state after the episode that was running ended, well or not.
    pub open spec fn episode_done(self, ok: bool) -> (SeasonRunState, SeasonStepView) {
        match (self.phase, self.batch) {
            (ScopePhase::Running, Some(batch)) => SeasonRunState {
                batch: Some(
                    if batch.current() is Some {
                        batch.recorded(ok)
                    } else {
                        batch
                    },
                ),
                ..self
            }.advance(),
            _ => self.fail(ScrapeError::UnexpectedEvent),
        }
    }

    /// The state after `event`, and what is to be done next.
    pub open spec fn next(self, cfg: ConfigView, event: Event) -> (SeasonRunState, SeasonStepView) {
        let first = episode_url_text(cfg.site, cfg.name, self.season, 1);
        match (self.phase, event) {
            (ScopePhase::Locating, Event::CurrentUrl(shown)) => if shown matches Some(url)
                && same_ignoring_ascii_case(url@, first) {
                (
                    SeasonRunState { phase: ScopePhase::Discovering, ..self },
                    SeasonStepView::Act(ActionView::ReadEpisodePage),
                )
            } else {
                (
                    SeasonRunState { phase: ScopePhase::Navigating, ..self },
                    SeasonStepView::Act(ActionView::Navigate { url: first }),
                )
            },
            (ScopePhase::Navigating, Event::Navigated(opened)) => if opened {
                (
                    SeasonRunState { phase: ScopePhase::Settling, ..self },
                    SeasonStepView::Act(ActionView::Wait { page_load: true }),
                )
            } else {
                self.fail(ScrapeError::NavigationFailure)
            },
            (ScopePhase::Settling, Event::Waited) => (
                SeasonRunState { phase: ScopePhase::Discovering, ..self },
                SeasonStepView::Act(ActionView::ReadEpisodePage),
            ),
            (ScopePhase::Discovering, Event::EpisodePage(Some(page))) => {
                let info = episode_info_of(
                    self.season,
                    1,
                    option_text_view(page.title),
                    text_views(page.labels@),
                );
                SeasonRunState {
                    batch: Some(BatchState::initial(info.episodes, self.selection)),
                    max: info.max_episode_number_in_season,
                    ..self
                }.advance()
            },
            (ScopePhase::Discovering, Event::EpisodePage(None)) => self.fail(
                ScrapeError::DiscoveryFailure,
            ),
            _ => self.fail(ScrapeError::UnexpectedEvent),
        }
    }
}

/// A season in progress.
pub struct SeasonRun {
    season: u32,
    selection: AllOrSpecific,
    phase: ScopePhase,
    batch: Option<Batch>,
    max: Option<u32>,
}

impl View for SeasonRun {
    type V = SeasonRunState;

    closed spec fn view(&self) -> SeasonRunState {
        SeasonRunState {
            season: self.season,
            selection: self.selection@,
            phase: self.phase,
            batch: match self.batch {
                Some(batch) => Some(batch@),
                None => None,
            },
            max: self.max,
        }
    }
}

impl SeasonRun {
    fn fail(&mut self, e: ScrapeError) -> (r: SeasonStep)
        ensures
            final(self)@ == old(self)@.fail(e).0,
            r@ == old(self)@.fail(e).1,
    {
        self.phase = ScopePhase::Done;
        SeasonStep::Finished(Err(e))
    }

    /// Starts on a season, of which the episodes in `selection` are wanted.
    pub fn begin(season: u32, selection: AllOrSpecific) -> (r: (SeasonRun, SeasonStep))
        ensures
            r.0@ == SeasonRunState::begin(season, selection@).0,
            r.1@ == SeasonRunState::begin(season, selection@).1,
    {
        (
            SeasonRun { season, selection, phase: ScopePhase::Locating, batch: None, max: None },
            SeasonStep::Act(Action::ReadCurrentUrl),
        )
    }

    /// The season that this run is about.
    pub fn season(&self) -> (r: u32)
        ensures
            r == self@.season,
    {
        self.season
    }

    fn advance(&mut self) -> (r: SeasonStep)
        ensures
            final(self)@ == old(self)@.advance().0,
            r@ == old(self)@.advance().1,
    {
        let current = match &self.batch {
            Some(batch) => Some((batch.current(), batch.position(), batch.succeeded())),
            None => None,
        };
        match current {
            Some((Some(episode), position, _)) => {
                self.phase = ScopePhase::Running;
                SeasonStep::RunEpisode { episode, goto: position > 0, max: self.max }
            },
            Some((None, _, succeeded)) => {
                self.phase = ScopePhase::Done;
                if succeeded {
                    SeasonStep::Finished(Ok(()))
                } else {
                    SeasonStep::Finished(Err(ScrapeError::Incomplete))
                }
            },
            None => self.fail(ScrapeError::UnexpectedEvent),
        }
    }

    /// Takes the end of the episode that was running and tells what to do
    /// next: the next wanted episode, or the end of the season. The season
    /// ends in `Incomplete` if one of its episodes failed.
    pub fn episode_done(&mut self, ok: bool) -> (r: SeasonStep)
        ensures
            final(self)@ == old(self)@.episode_done(ok).0,
            r@ == old(self)@.episode_done(ok).1,
    {
        match self.phase {
            ScopePhase::Running => {
                match self.batch.take() {
                    Some(mut batch) => {
                        batch.record(ok);
                        self.batch = Some(batch);
                        self.advance()
                    },
                    None => self.fail(ScrapeError::UnexpectedEvent),
                }
            },
            _ => self.fail(ScrapeError::UnexpectedEvent),
        }
    }

    /// Takes what came of the pending action and tells what to do next.
    ///
    /// An event that answers no pending action ends the season with
    /// `UnexpectedEvent`.
    pub fn step(&mut self, cfg: &ScrapeConfig, event: Event) -> (r: SeasonStep)
        ensures
            final(self)@ == old(self)@.next(cfg@, event).0,
            r@ == old(self)@.next(cfg@, event).1,
    {
        match (self.phase, event) {
            (ScopePhase::Locating, Event::CurrentUrl(shown)) => {
                let first = cfg.url.get_episode_url(self.season, 1);
                let there = match &shown {
                    Some(url) => {
                        let a = chars_of(url.as_str());
                        let b = chars_of(first.as_str());
                        eq_ignoring_ascii_case(&a, &b)
                    },
                    None => false,
                };
                if there {
                    self.phase = ScopePhase::Discovering;
                    SeasonStep::Act(Action::ReadEpisodePage)
                } else {
                    self.phase = ScopePhase::Navigating;
                    SeasonStep::Act(Action::Navigate { url: first })
                }
            },
            (ScopePhase::Navigating, Event::Navigated(opened)) => {
                if opened {
                    self.phase = ScopePhase::Settling;
                    SeasonStep::Act(Action::Wait { page_load: true })
                } else {
                    self.fail(ScrapeError::NavigationFailure)
                }
            },
            (ScopePhase::Settling, Event::Waited) => {
                self.phase = ScopePhase::Discovering;
                SeasonStep::Act(Action::ReadEpisodePage)
            },
            (ScopePhase::Discovering, Event::EpisodePage(Some(page))) => {
                let info = EpisodeInfo::from_page(self.season, 1, &page.title, &page.labels);
                self.max = info.max_episode_number_in_season;
                self.batch = Some(Batch::new(info.episodes, self.selection.duplicate()));
                self.advance()
            },
            (ScopePhase::Discovering, Event::EpisodePage(None)) => self.fail(
                ScrapeError::DiscoveryFailure,
            ),
            _ => self.fail(ScrapeError::UnexpectedEvent),
        }
    }
}

/// What the seasons of a series give back: an action for the caller, a
/// season to run, or their own end.
#[derive(Debug, PartialEq, Eq)]
pub enum SeasonsStep {
    Act(Action),
    RunSeason { season: u32 },
    Finished(Result<(), ScrapeError>),
}

/// A `SeasonsStep` as mathematical values.
pub enum SeasonsStepView {
    Act(ActionView),
    RunSeason { season: u32 },
    Finished(Result<(), ScrapeError>),
}

impl View for SeasonsStep {
    type V = SeasonsStepView;

    open spec fn view(&self) -> SeasonsStepView {
        match self {
            SeasonsStep::Act(action) => SeasonsStepView::Act(action@),
            SeasonsStep::RunSeason { season } => SeasonsStepView::RunSeason { season: *season },
            SeasonsStep::Finished(result) => SeasonsStepView::Finished(*result),
        }
    }
}

/// The state of the seasons of a series as mathematical values.
pub struct SeasonsRunState {
    /// The seasons that are wanted; `None` for all.
    pub selection: Option<Seq<u32>>,
    pub phase: ScopePhase,
    /// The seasons of the series, once they are known.
    pub batch: Option<BatchState>,
}

impl SeasonsRunState {
    /// The scope ends with the error `e`.
    pub open spec fn fail(self, e: ScrapeError) -> (SeasonsRunState, SeasonsStepView) {
        (SeasonsRunState { phase: ScopePhase::Done, ..self }, SeasonsStepView::Finished(Err(e)))
    }

    /// The start: the first episode of the first season is opened, which
    /// brings a page that lists the seasons.
    pub open spec fn begin(cfg: ConfigView, selection: Option<Seq<u32>>) -> (
        SeasonsRunState,
        SeasonsStepView,
    ) {
        (
            SeasonsRunState { selection, phase: ScopePhase::Navigating, batch: None },
            SeasonsStepView::Act(
                ActionView::Navigate { url: episode_url_text(cfg.site, cfg.name, 1, 1) },
            ),
        )
    }

    /// Goes on with the wanted season that is next, or ends the scope.
    pub open spec fn advance(self) -> (SeasonsRunState, SeasonsStepView) {
        match self.batch {
            Some(batch) => match batch.current() {
                Some(season) => (
                    SeasonsRunState { phase: ScopePhase::Running, ..self },
                    SeasonsStepView::RunSeason { season },
                ),
                None => (
                    SeasonsRunState { phase: ScopePhase::Done, ..self },
                    SeasonsStepView::Finished(aggregate(batch)),
                ),
            },
            None => self.fail(ScrapeError::UnexpectedEvent),
        }
    }

    /// The state after the season that was running ended, well or not.
    pub open spec fn season_done(self, ok: bool) -> (SeasonsRunState, SeasonsStepView) {
        match (self.phase, self.batch) {
            (ScopePhase::Running, Some(batch)) => SeasonsRunState {
                batch: Some(
                    if batch.current() is Some {
                        batch.recorded(ok)
                    } else {
                        batch
                    },
                ),
                ..self
            }.advance(),
            _ => self.fail(ScrapeError::UnexpectedEvent),
        }
    }

    /// The state after `event`, and what is to be done next. A series
    /// without seasons is a failure of discovery.
    pub open spec fn next(self, event: Event) -> (SeasonsRunState, SeasonsStepView) {
        match (self.phase, event) {
            (ScopePhase::Navigating, Event::Navigated(opened)) => if opened {
                (
                    SeasonsRunState { phase: ScopePhase::Settling, ..self },
                    SeasonsStepView::Act(ActionView::Wait { page_load: true }),
                )
            } else {
                self.fail(ScrapeError::NavigationFailure)
            },
            (ScopePhase::Settling, Event::Waited) => (
                SeasonsRunState { phase: ScopePhase::Discovering, ..self },
                SeasonsStepView::Act(ActionView::ReadSeasons),
            ),
            (ScopePhase::Discovering, Event::SeasonLabels(Some(labels))) => {
                let seasons = seasons_of_labels(text_views(labels@));
                if seasons.len() == 0 {
                    self.fail(ScrapeError::DiscoveryFailure)
                } else {
                    SeasonsRunState {
                        batch: Some(BatchState::initial(seasons, self.selection)),
                        ..self
                    }.advance()
                }
            },
            (ScopePhase::Discovering, Event::SeasonLabels(None)) => self.fail(
                ScrapeError::DiscoveryFailure,
            ),
            _ => self.fail(ScrapeError::UnexpectedEvent),
        }
    }
}

/// The seasons of a series in progress.
pub struct SeasonsRun {
    selection: AllOrSpecific,
    phase: ScopePhase,
    batch: Option<Batch>,
}

impl View for SeasonsRun {
    type V = SeasonsRunState;

    closed spec fn view(&self) -> SeasonsRunState {
        SeasonsRunState {
            selection: self.selection@,
            phase: self.phase,
            batch: match self.batch {
                Some(batch) => Some(batch@),
                None => None,
            },
        }
    }
}

impl SeasonsRun {
    fn fail(&mut self, e: ScrapeError) -> (r: SeasonsStep)
        ensures
            final(self)@ == old(self)@.fail(e).0,
            r@ == old(self)@.fail(e).1,
    {
        self.phase = ScopePhase::Done;
        SeasonsStep::Finished(Err(e))
    }

    /// Starts on the seasons of a series, of which those in `selection`
    /// are wanted.
    pub fn begin(cfg: &ScrapeConfig, selection: AllOrSpecific) -> (r: (SeasonsRun, SeasonsStep))
        ensures
            r.0@ == SeasonsRunState::begin(cfg@, selection@).0,
            r.1@ == SeasonsRunState::begin(cfg@, selection@).1,
    {
        (
            SeasonsRun { selection, phase: ScopePhase::Navigating, batch: None },
            SeasonsStep::Act(Action::Navigate { url: cfg.url.get_episode_url(1, 1) }),
        )
    }

    fn advance(&mut self) -> (r: SeasonsStep)
        ensures
            final(self)@ == old(self)@.advance().0,
            r@ == old(self)@.advance().1,
    {
        let current = match &self.batch {
            Some(batch) => Some((batch.current(), batch.succeeded())),
            None => None,
        };
        match current {
            Some((Some(season), _)) => {
                self.phase = ScopePhase::Running;
                SeasonsStep::RunSeason { season }
            },
            Some((None, succeeded)) => {
                self.phase = ScopePhase::Done;
                if succeeded {
                    SeasonsStep::Finished(Ok(()))
                } else {
                    SeasonsStep::Finished(Err(ScrapeError::Incomplete))
                }
            },
            None => self.fail(ScrapeError::UnexpectedEvent),
        }
    }

    /// Takes the end of the season that was running and tells what to do
    /// next: the next wanted season, or the end of the scope. The scope ends
    /// in `Incomplete` if one of its seasons failed.
    pub fn season_done(&mut self, ok: bool) -> (r: SeasonsStep)
        ensures
            final(self)@ == old(self)@.season_done(ok).0,
            r@ == old(self)@.season_done(ok).1,
    {
        match self.phase {
            ScopePhase::Running => {
                match self.batch.take() {
                    Some(mut batch) => {
                        batch.record(ok);
                        self.batch = Some(batch);
                        self.advance()
                    },
                    None => self.fail(ScrapeError::UnexpectedEvent),
                }
            },
            _ => self.fail(ScrapeError::UnexpectedEvent),
        }
    }

    /// Takes what came of the pending action and tells what to do next.
    ///
    /// An event that answers no pending action ends the scope with
    /// `UnexpectedEvent`.
    pub fn step(&mut self, event: Event) -> (r: SeasonsStep)
        ensures
            final(self)@ == old(self)@.next(event).0,
            r@ == old(self)@.next(event).1,
    {
        match (self.phase, event) {
            (ScopePhase::Navigating, Event::Navigated(opened)) => {
                if opened {
                    self.phase = ScopePhase::Settling;
                    SeasonsStep::Act(Action::Wait { page_load: true })
                } else {
                    self.fail(ScrapeError::NavigationFailure)
                }
            },
            (ScopePhase::Settling, Event::Waited) => {
                self.phase = ScopePhase::Discovering;
                SeasonsStep::Act(Action::ReadSeasons)
            },
            (ScopePhase::Discovering, Event::SeasonLabels(Some(labels))) => {
                match SeasonsInfo::from_labels(&labels) {
                    Some(info) => {
                        self.batch = Some(Batch::new(info.seasons, self.selection.duplicate()));
                        self.advance()
                    },
                    None => self.fail(ScrapeError::DiscoveryFailure),
                }
            },
            (ScopePhase::Discovering, Event::SeasonLabels(None)) => self.fail(
                ScrapeError::DiscoveryFailure,
            ),
            _ => self.fail(ScrapeError::UnexpectedEvent),
        }
    }
}

} // verus!
