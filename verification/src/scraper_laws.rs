//! Laws of the traversal as a whole.

use crate::episode::EpisodeRunState;
use crate::existence::{padding_guess_seq, SkipCheckState};
use crate::protocol::{ActionView, ConfigView, Event, StepView};
use crate::request::{ScopeView, ScrapeError};
use crate::scraper::{RunsState, ScraperState};
use vstd::prelude::*;

verus! {

/// No scope is running.
pub open spec fn is_at_rest(runs: RunsState) -> bool {
    runs.seasons is None && runs.season is None && runs.episode is None
}

/// With a variant to look for, an episode run starts with an action: no
/// episode is over before the caller did anything for it.
pub proof fn lemma_episode_starts_with_an_action(
    cfg: ConfigView,
    season: u32,
    episode: u32,
    goto: bool,
    max: Option<u32>,
)
    requires
        cfg.wf(),
    ensures
        EpisodeRunState::begin(cfg, season, episode, goto, max).1 is Act,
        EpisodeRunState::begin(cfg, season, episode, goto, max).0.wf(cfg),
{
    let check = SkipCheckState::initial(cfg.wildcard, cfg.variants, padding_guess_seq(max));
    assert(padding_guess_seq(max).len() == 3);
    assert(check.verdict is None);
}

/// A traversal starts with an action: none is over before the caller did
/// anything for it.
pub proof fn lemma_traversal_starts_with_an_action(cfg: ConfigView, scope: ScopeView)
    requires
        cfg.wf(),
    ensures
        !(RunsState::start(cfg, scope).1 is Done),
        !is_at_rest(RunsState::start(cfg, scope).0),
{
    if let ScopeView::OneEpisode { season, episode } = scope {
        lemma_episode_starts_with_an_action(cfg, season, episode, true, None);
    }
}

/// When the traversal is over, no scope is running, and the failures noted
/// are those noted before.
pub proof fn lemma_finish_leaves_nothing_running(runs: RunsState, result: Result<(), ScrapeError>)
    ensures
        is_at_rest(runs.finish(result).0),
        runs.finish(result).0.failures == runs.failures,
        runs.finish(result).1 == ActionView::Done(result),
{
}

/// A traversal that is over stays over: every event is answered by the end
/// with `UnexpectedEvent`, and no scope starts running.
pub proof fn lemma_over_stays_over(s: ScraperState, event: Event)
    requires
        is_at_rest(s.runs),
    ensures
        s.next(event).1 == ActionView::Done(Err(ScrapeError::UnexpectedEvent)),
        is_at_rest(s.next(event).0.runs),
        s.next(event).0.runs.failures == s.runs.failures,
{
}

/// An event goes to the episode that is running, if one is: the season and
/// the seasons of the series are touched only when the episode ends.
pub proof fn lemma_event_goes_to_the_running_episode(runs: RunsState, cfg: ConfigView, event: Event)
    requires
        runs.episode is Some,
        runs.episode->0.next(cfg, event).1 is Act,
    ensures
        runs.next(cfg, event).1 == runs.episode->0.next(cfg, event).1->Act_0,
        runs.next(cfg, event).0.episode == Some(runs.episode->0.next(cfg, event).0),
        runs.next(cfg, event).0.season == runs.season,
        runs.next(cfg, event).0.seasons == runs.seasons,
        runs.next(cfg, event).0.failures == runs.failures,
{
}

/// The failure of an episode within a season does not end the traversal
/// while the season has another wanted episode: the failure is noted, and
/// the next wanted episode starts.
pub proof fn lemma_failed_episode_is_noted(
    runs: RunsState,
    cfg: ConfigView,
    event: Event,
    error: ScrapeError,
)
    requires
        cfg.wf(),
        runs.episode is Some,
        runs.season is Some,
        runs.episode->0.next(cfg, event).1 == StepView::Finished(Err(error)),
        runs.season->0.episode_done(false).1 is RunEpisode,
    ensures
        !(runs.next(cfg, event).1 is Done),
        runs.next(cfg, event).0.episode is Some,
        runs.next(cfg, event).0.failures.len() == runs.failures.len() + 1,
        runs.next(cfg, event).0.failures.last().error == error,
        runs.next(cfg, event).0.failures.last().season == runs.episode->0.season,
        runs.next(cfg, event).0.failures.last().episode == Some(runs.episode->0.episode),
{
    let (season, step) = runs.season->0.episode_done(false);
    let next_episode = step->RunEpisode_episode;
    lemma_episode_starts_with_an_action(
        cfg,
        season.season,
        next_episode,
        step->RunEpisode_goto,
        step->RunEpisode_max,
    );
    let ended = runs.episode->0.next(cfg, event).0;
    assert(ended.season == runs.episode->0.season && ended.episode == runs.episode->0.episode) by {
        lemma_step_keeps_the_episode(runs.episode->0, cfg, event);
    }
}

/// An episode run is about the same episode from start to end.
pub proof fn lemma_step_keeps_the_episode(s: EpisodeRunState, cfg: ConfigView, event: Event)
    ensures
        s.next(cfg, event).0.season == s.season,
        s.next(cfg, event).0.episode == s.episode,
        s.next(cfg, event).0.goto == s.goto,
{
}

} // verus!
