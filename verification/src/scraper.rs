//! The traversal as a whole.
//!
//! A request has one of three scopes: every season of a series, one season,
//! or one episode. A `Scraper` runs the scopes inside one another: the
//! seasons of the series start a season, a season starts an episode, and
//! the end of each is handed to the scope that started it. The caller
//! performs each action and hands back what came of it, until the action is
//! `Done`.

use crate::episode::{EpisodeRun, EpisodeRunState};
use crate::protocol::{Action, ActionView, ConfigView, Event, ScrapeConfig, Step, StepView};
use crate::request::{
    plan_scope, scope_of, AllOrSpecific, DownloadRequest, DownloadSettings, Scope, ScopeView,
    ScrapeError,
};
use crate::season::{
    SeasonRun, SeasonRunState, SeasonStep, SeasonStepView, SeasonsRun, SeasonsRunState,
    SeasonsStep, SeasonsStepView,
};
use crate::sources::{catalog_view, priority_views, ExtractorNames};
use crate::url::{ParsedUrl, UrlParts};
use crate::variant::{get_language_selectors, selected_variants, selector_text, VideoType};
use vstd::prelude::*;

verus! {

/// The scopes that are running, as mathematical values: an episode runs
/// within a season, if one is running, and a season within the seasons of
/// the series, if they are.
pub struct RunsState {
    pub seasons: Option<SeasonsRunState>,
    pub season: Option<SeasonRunState>,
    pub episode: Option<EpisodeRunState>,
    /// The failures of seasons and episodes that did not end the traversal,
    /// in the order in which they occurred.
    pub failures: Seq<Failure>,
}

/// The failure of a season, or of an episode of a season, within a scope
/// that went on after it.
#[derive(Debug, Clone, Copy, PartialEq, Eq)]
pub struct Failure {
    pub season: u32,
    /// The episode that failed; `None` where the season failed as a whole.
    pub episode: Option<u32>,
    pub error: ScrapeError,
}

/// The failures with one more, where `result` is a failure.
pub open spec fn noted(
    failures: Seq<Failure>,
    season: u32,
    episode: Option<u32>,
    result: Result<(), ScrapeError>,
) -> Seq<Failure> {
    match result {
        Ok(_) => failures,
        Err(error) => failures.push(Failure { season, episode, error }),
    }
}

impl RunsState {
    /// Nothing is running.
    pub open spec fn idle() -> RunsState {
        RunsState { seasons: None, season: None, episode: None, failures: Seq::<Failure>::empty() }
    }

    /// The traversal is over.
    pub open spec fn finish(self, result: Result<(), ScrapeError>) -> (RunsState, ActionView) {
        (RunsState { failures: self.failures, ..Self::idle() }, ActionView::Done(result))
    }

    /// What follows a step of the seasons of the series: their action, the
    /// start of a season in all its episodes, or the end of the traversal.
    pub open spec fn settle_seasons(self, step: SeasonsStepView) -> (RunsState, ActionView) {
        match step {
            SeasonsStepView::Act(action) => (self, action),
            SeasonsStepView::RunSeason { season } => (
                RunsState { season: Some(SeasonRunState::begin(season, None).0), ..self },
                ActionView::ReadCurrentUrl,
            ),
            SeasonsStepView::Finished(result) => self.finish(result),
        }
    }

    /// What follows a step of a season: its action, the start of an
    /// episode, or its end, which is handed to the seasons of the series if
    /// they are running, and ends the traversal if not. A season that fails
    /// within the seasons of the series is noted.
    pub open spec fn settle_season(self, cfg: ConfigView, step: SeasonStepView) -> (
        RunsState,
        ActionView,
    ) {
        match step {
            SeasonStepView::Act(action) => (self, action),
            SeasonStepView::RunEpisode { episode, goto, max } => {
                let (run, first) = EpisodeRunState::begin(
                    cfg,
                    self.season->0.season,
                    episode,
                    goto,
                    max,
                );
                match first {
                    StepView::Act(action) => (RunsState { episode: Some(run), ..self }, action),
                    StepView::Finished(_) => self.finish(Err(ScrapeError::UnexpectedEvent)),
                }
            },
            SeasonStepView::Finished(result) => match self.seasons {
                Some(seasons) => {
                    let (seasons, step) = seasons.season_done(result is Ok);
                    RunsState {
                        seasons: Some(seasons),
                        season: None,
                        episode: None,
                        failures: noted(self.failures, self.season->0.season, None, result),
                    }.settle_seasons(step)
                },
                None => self.finish(result),
            },
        }
    }

    /// What follows a step of an episode: its action, or its end, which is
    /// handed to the season if one is running, and ends the traversal if
    /// not. An episode that fails within a season is noted.
    pub open spec fn settle_episode(self, cfg: ConfigView, step: StepView) -> (
        RunsState,
        ActionView,
    ) {
        match step {
            StepView::Act(action) => (self, action),
            StepView::Finished(result) => match self.season {
                Some(season) => {
                    let (season, step) = season.episode_done(result is Ok);
                    RunsState {
                        season: Some(season),
                        episode: None,
                        failures: noted(
                            self.failures,
                            self.episode->0.season,
                            Some(self.episode->0.episode),
                            result,
                        ),
                        ..self
                    }.settle_season(cfg, step)
                },
                None => self.finish(result),
            },
        }
    }

    /// The start of a traversal with the given scope.
    pub open spec fn start(cfg: ConfigView, scope: ScopeView) -> (RunsState, ActionView) {
        match scope {
            ScopeView::AllSeasons { seasons } => {
                let (run, step) = SeasonsRunState::begin(cfg, seasons);
                RunsState { seasons: Some(run), ..Self::idle() }.settle_seasons(step)
            },
            ScopeView::OneSeason { season, episodes } => {
                let (run, step) = SeasonRunState::begin(season, episodes);
                RunsState { season: Some(run), ..Self::idle() }.settle_season(cfg, step)
            },
            ScopeView::OneEpisode { season, episode } => {
                let (run, step) = EpisodeRunState::begin(cfg, season, episode, true, None);
                RunsState { episode: Some(run), ..Self::idle() }.settle_episode(cfg, step)
            },
        }
    }

    /// The state after `event`, and the action that follows. The event goes
    /// to the innermost scope that is running.
    pub open spec fn next(self, cfg: ConfigView, event: Event) -> (RunsState, ActionView) {
        match self.episode {
            Some(episode) => {
                let (episode, step) = episode.next(cfg, event);
                RunsState { episode: Some(episode), ..self }.settle_episode(cfg, step)
            },
            None => match self.season {
                Some(season) => {
                    let (season, step) = season.next(cfg, event);
                    RunsState { season: Some(season), ..self }.settle_season(cfg, step)
                },
                None => match self.seasons {
                    Some(seasons) => {
                        let (seasons, step) = seasons.next(event);
                        RunsState { seasons: Some(seasons), ..self }.settle_seasons(step)
                    },
                    None => self.finish(Err(ScrapeError::UnexpectedEvent)),
                },
            },
        }
    }
}

/// The scopes that are running.
struct Runs {
    seasons: Option<SeasonsRun>,
    season: Option<SeasonRun>,
    episode: Option<EpisodeRun>,
    failures: Vec<Failure>,
}

impl View for Runs {
    type V = RunsState;

    closed spec fn view(&self) -> RunsState {
        RunsState {
            seasons: match self.seasons {
                Some(run) => Some(run@),
                None => None,
            },
            season: match self.season {
                Some(run) => Some(run@),
                None => None,
            },
            episode: match self.episode {
                Some(run) => Some(run@),
                None => None,
            },
            failures: self.failures@,
        }
    }
}

impl Runs {
    /// An episode that is running is in order.
    closed spec fn wf(&self, cfg: &ScrapeConfig) -> bool {
        self.episode matches Some(run) ==> run.inv() && run@.wf(cfg@)
    }

    fn note(&mut self, season: u32, episode: Option<u32>, result: Result<(), ScrapeError>)
        ensures
            final(self).seasons == old(self).seasons,
            final(self).season == old(self).season,
            final(self).episode == old(self).episode,
            final(self).failures@ == noted(old(self).failures@, season, episode, result),
    {
        match result {
            Ok(_) => {},
            Err(error) => {
                self.failures.push(Failure { season, episode, error });
            },
        }
    }

    fn finish(&mut self, result: Result<(), ScrapeError>) -> (r: Action)
        ensures
            final(self)@ == old(self)@.finish(result).0,
            r@ == old(self)@.finish(result).1,
            forall|cfg: &ScrapeConfig| final(self).wf(cfg),
    {
        self.seasons = None;
        self.season = None;
        self.episode = None;
        Action::Done(result)
    }

    fn settle_seasons(&mut self, step: SeasonsStep) -> (r: Action)
        requires
            old(self)@.episode is None,
        ensures
            final(self)@ == old(self)@.settle_seasons(step@).0,
            r@ == old(self)@.settle_seasons(step@).1,
            forall|cfg: &ScrapeConfig| final(self).wf(cfg),
    {
        match step {
            SeasonsStep::Act(action) => action,
            SeasonsStep::RunSeason { season } => {
                let (run, _) = SeasonRun::begin(season, AllOrSpecific::All);
                self.season = Some(run);
                Action::ReadCurrentUrl
            },
            SeasonsStep::Finished(result) => self.finish(result),
        }
    }

    fn settle_season(&mut self, cfg: &ScrapeConfig, step: SeasonStep) -> (r: Action)
        requires
            old(self)@.episode is None,
            old(self)@.season is Some,
        ensures
            final(self)@ == old(self)@.settle_season(cfg@, step@).0,
            r@ == old(self)@.settle_season(cfg@, step@).1,
            final(self).wf(cfg),
    {
        match step {
            SeasonStep::Act(action) => action,
            SeasonStep::RunEpisode { episode, goto, max } => {
                let season = match &self.season {
                    Some(run) => run.season(),
                    None => 0,
                };
                let (run, first) = EpisodeRun::begin(cfg, season, episode, goto, max);
                match first {
                    Step::Act(action) => {
                        self.episode = Some(run);
                        action
                    },
                    Step::Finished(_) => self.finish(Err(ScrapeError::UnexpectedEvent)),
                }
            },
            SeasonStep::Finished(result) => {
                let season = match &self.season {
                    Some(run) => run.season(),
                    None => 0,
                };
                match self.seasons.take() {
                    Some(mut seasons) => {
                        let step = seasons.season_done(result.is_ok());
                        self.seasons = Some(seasons);
                        self.season = None;
                        self.note(season, None, result);
                        self.settle_seasons(step)
                    },
                    None => self.finish(result),
                }
            },
        }
    }

    fn settle_episode(&mut self, cfg: &ScrapeConfig, step: Step) -> (r: Action)
        requires
            old(self).wf(cfg),
            step is Finished ==> old(self)@.episode is Some,
        ensures
            final(self)@ == old(self)@.settle_episode(cfg@, step@).0,
            r@ == old(self)@.settle_episode(cfg@, step@).1,
            final(self).wf(cfg),
    {
        match step {
            Step::Act(action) => action,
            Step::Finished(result) => {
                let (of_season, of_episode) = match &self.episode {
                    Some(run) => (run.season(), run.episode()),
                    None => (0, 0),
                };
                match self.season.take() {
                    Some(mut season) => {
                        let step = season.episode_done(result.is_ok());
                        self.season = Some(season);
                        self.episode = None;
                        self.note(of_season, Some(of_episode), result);
                        self.settle_season(cfg, step)
                    },
                    None => self.finish(result),
                }
            },
        }
    }

    fn start(&mut self, cfg: &ScrapeConfig, scope: Scope) -> (r: Action)
        requires
            old(self)@ == RunsState::idle(),
        ensures
            final(self)@ == RunsState::start(cfg@, scope@).0,
            r@ == RunsState::start(cfg@, scope@).1,
            final(self).wf(cfg),
    {
        match scope {
            Scope::AllSeasons { seasons } => {
                let (run, step) = SeasonsRun::begin(cfg, seasons);
                self.seasons = Some(run);
                self.settle_seasons(step)
            },
            Scope::OneSeason { season, episodes } => {
                let (run, step) = SeasonRun::begin(season, episodes);
                self.season = Some(run);
                self.settle_season(cfg, step)
            },
            Scope::OneEpisode { season, episode } => {
                let (run, step) = EpisodeRun::begin(cfg, season, episode, true, None);
                self.episode = Some(run);
                self.settle_episode(cfg, step)
            },
        }
    }

    fn next(&mut self, cfg: &ScrapeConfig, event: Event) -> (r: Action)
        requires
            old(self).wf(cfg),
        ensures
            final(self)@ == old(self)@.next(cfg@, event).0,
            r@ == old(self)@.next(cfg@, event).1,
            final(self).wf(cfg),
    {
        match self.episode.take() {
            Some(mut episode) => {
                let step = episode.step(cfg, event);
                self.episode = Some(episode);
                self.settle_episode(cfg, step)
            },
            None => match self.season.take() {
                Some(mut season) => {
                    let step = season.step(cfg, event);
                    self.season = Some(season);
                    self.settle_season(cfg, step)
                },
                None => match self.seasons.take() {
                    Some(mut seasons) => {
                        let step = seasons.step(event);
                        self.seasons = Some(seasons);
                        self.settle_seasons(step)
                    },
                    None => self.finish(Err(ScrapeError::UnexpectedEvent)),
                },
            },
        }
    }
}

/// The configuration of a traversal: the variants that the request selects
/// on the site, each with its selector, and what the caller gave.
pub open spec fn config_of(
    url: UrlParts,
    language: VideoType,
    skip_existing: bool,
    priorities: Seq<Option<Seq<char>>>,
    catalog: Seq<Seq<Seq<char>>>,
) -> ConfigView {
    let variants = selected_variants(url.site, language);
    ConfigView {
        site: url.site,
        name: url.name,
        wildcard: language is Unspecified,
        variants,
        selectors: Seq::new(variants.len(), |i: int| selector_text(variants[i])->0),
        skip_existing,
        priorities,
        catalog,
    }
}

/// Episodes that were downloaded before are left out if the caller asks for
/// it and tells both the title of the series and where its files are kept.
pub open spec fn skip_applies(settings: DownloadSettings, request: DownloadRequest) -> bool {
    settings.skip_existing && request.series_title is Some && request.save_directory is Some
}

/// The state of a traversal as mathematical values.
pub struct ScraperState {
    pub cfg: ConfigView,
    /// The scope, until the traversal starts.
    pub scope: Option<ScopeView>,
    pub runs: RunsState,
}

impl ScraperState {
    /// The start of the traversal: the first action of its scope. A
    /// traversal starts once.
    pub open spec fn scrape(self) -> (ScraperState, ActionView) {
        match self.scope {
            Some(scope) => {
                let (runs, action) = RunsState::start(self.cfg, scope);
                (ScraperState { scope: None, runs, ..self }, action)
            },
            None => (
                ScraperState { runs: self.runs.finish(Err(ScrapeError::UnexpectedEvent)).0, ..self },
                ActionView::Done(Err(ScrapeError::UnexpectedEvent)),
            ),
        }
    }

    /// The state after `event`, and the action that follows.
    pub open spec fn next(self, event: Event) -> (ScraperState, ActionView) {
        let (runs, action) = self.runs.next(self.cfg, event);
        (ScraperState { runs, ..self }, action)
    }
}

/// A traversal of one series for one request.
pub struct Scraper {
    cfg: ScrapeConfig,
    scope: Option<Scope>,
    runs: Runs,
}

impl View for Scraper {
    type V = ScraperState;

    closed spec fn view(&self) -> ScraperState {
        ScraperState {
            cfg: self.cfg@,
            scope: match self.scope {
                Some(scope) => Some(scope@),
                None => None,
            },
            runs: self.runs@,
        }
    }
}

impl Scraper {
    /// What holds of a traversal from its making on: the scopes that are
    /// running are in order.
    pub closed spec fn inv(&self) -> bool {
        self.runs.wf(&self.cfg)
    }

    /// Prepares the traversal of the series that `parsed_url` names.
    ///
    /// Fails with `UnsupportedVariant` exactly when the site does not offer
    /// the language variant that the request asks for.
    pub fn new(
        parsed_url: ParsedUrl,
        request: DownloadRequest,
        settings: DownloadSettings,
        catalog: Vec<ExtractorNames>,
    ) -> (r: Result<Scraper, ScrapeError>)
        ensures
            match r {
                Ok(scraper) => {
                    &&& scraper.inv()
                    &&& scraper@.cfg.wf()
                    &&& selected_variants(parsed_url.site, request.language).len() > 0
                    &&& scraper@ == ScraperState {
                        cfg: config_of(
                            parsed_url@,
                            request.language,
                            skip_applies(settings, request),
                            priority_views(request.extractor_priorities@),
                            catalog_view(catalog@),
                        ),
                        scope: Some(scope_of(parsed_url.season, request.episodes@)),
                        runs: RunsState::idle(),
                    }
                },
                Err(e) => e == ScrapeError::UnsupportedVariant && selected_variants(
                    parsed_url.site,
                    request.language,
                ).len() == 0,
            },
    {
        let selectors = match get_language_selectors(&parsed_url.site, &request.language) {
            Some(selectors) => selectors,
            None => {
                return Err(ScrapeError::UnsupportedVariant);
            },
        };
        let skip_existing = settings.skip_existing && request.series_title.is_some()
            && request.save_directory.is_some();
        let scope = plan_scope(&parsed_url, request.episodes);
        let cfg = ScrapeConfig {
            url: parsed_url,
            language: request.language,
            selectors,
            skip_existing,
            extractor_priorities: request.extractor_priorities,
            catalog,
        };
        proof {
            let wanted = config_of(
                parsed_url@,
                request.language,
                skip_applies(settings, request),
                priority_views(request.extractor_priorities@),
                catalog_view(catalog@),
            );
            assert(cfg@.variants =~= wanted.variants);
            assert(cfg@.selectors =~= wanted.selectors);
        }
        Ok(
            Scraper {
                cfg,
                scope: Some(scope),
                runs: Runs { seasons: None, season: None, episode: None, failures: Vec::new() },
            },
        )
    }

    /// Starts the traversal and gives its first action. Started again, the
    /// traversal ends with `UnexpectedEvent`.
    pub fn scrape(&mut self) -> (r: Action)
        requires
            old(self).inv(),
        ensures
            final(self).inv(),
            final(self)@ == old(self)@.scrape().0,
            r@ == old(self)@.scrape().1,
    {
        match self.scope.take() {
            Some(scope) => {
                self.runs = Runs { seasons: None, season: None, episode: None, failures: Vec::new() };
                self.runs.start(&self.cfg, scope)
            },
            None => self.runs.finish(Err(ScrapeError::UnexpectedEvent)),
        }
    }

    /// The failures of seasons and episodes so far that did not end the
    /// traversal, in the order in which they occurred.
    pub fn failures(&self) -> (r: &Vec<Failure>)
        ensures
            r@ == self@.runs.failures,
    {
        &self.runs.failures
    }

    /// Takes what came of the pending action and gives the action that
    /// follows. Once the action is `Done`, every further event is answered
    /// by `Done` with `UnexpectedEvent`.
    pub fn step(&mut self, event: Event) -> (r: Action)
        requires
            old(self).inv(),
        ensures
            final(self).inv(),
            final(self)@ == old(self)@.next(event).0,
            r@ == old(self)@.next(event).1,
    {
        self.runs.next(&self.cfg, event)
    }
}

} // verus!
