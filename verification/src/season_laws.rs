//! Laws of the scopes: best effort and failure in aggregate, for the seasons
//! of a series and for the episodes of a season.

use crate::batch::BatchState;
use crate::batch_laws::{lemma_finished, lemma_recorded, Outcomes};
use crate::request::{is_wanted, ScrapeError};
use crate::season::{
    aggregate, ScopePhase, SeasonRunState, SeasonStepView, SeasonsRunState, SeasonsStepView,
};
use vstd::prelude::*;

verus! {

/// The batch of a scope that is waiting for the end of one of its items.
pub open spec fn is_running(phase: ScopePhase, batch: Option<BatchState>) -> bool {
    &&& phase == ScopePhase::Running
    &&& batch matches Some(b) && b.wf() && b.position < b.items.len()
}

impl SeasonsRunState {
    /// How the scope ends when the season at index `i` of the series ends
    /// well exactly if `ends_well(i)`.
    pub open spec fn result(self, ends_well: Outcomes) -> Result<(), ScrapeError>
        decreases self.batch->0.items.len() - self.batch->0.position,
        when is_running(self.phase, self.batch)
        via Self::result_decreases
    {
        let (next, step) = self.season_done(ends_well(self.batch->0.position as int));
        match step {
            SeasonsStepView::RunSeason { season } => next.result(ends_well),
            SeasonsStepView::Finished(result) => result,
            SeasonsStepView::Act(_) => Err(ScrapeError::UnexpectedEvent),
        }
    }

    #[via_fn]
    proof fn result_decreases(self, ends_well: Outcomes) {
        lemma_recorded(self.batch->0, ends_well(self.batch->0.position as int));
    }
}

impl SeasonRunState {
    /// How the season ends when the episode at index `i` of its list ends
    /// well exactly if `ends_well(i)`.
    pub open spec fn result(self, ends_well: Outcomes) -> Result<(), ScrapeError>
        decreases self.batch->0.items.len() - self.batch->0.position,
        when is_running(self.phase, self.batch)
        via Self::result_decreases
    {
        let (next, step) = self.episode_done(ends_well(self.batch->0.position as int));
        match step {
            SeasonStepView::RunEpisode { episode, goto, max } => next.result(ends_well),
            SeasonStepView::Finished(result) => result,
            SeasonStepView::Act(_) => Err(ScrapeError::UnexpectedEvent),
        }
    }

    #[via_fn]
    proof fn result_decreases(self, ends_well: Outcomes) {
        lemma_recorded(self.batch->0, ends_well(self.batch->0.position as int));
    }
}

/// When a season ends, the scope goes on with the wanted season that is
/// next, whether the season ended well or not; after the last it ends.
pub proof fn lemma_season_done(s: SeasonsRunState, ok: bool)
    requires
        is_running(s.phase, s.batch),
    ensures
        s.season_done(ok).0.batch == Some(s.batch->0.recorded(ok)),
        match s.batch->0.recorded(true).current() {
            Some(season) => s.season_done(ok).1 == (SeasonsStepView::RunSeason { season })
                && is_running(s.season_done(ok).0.phase, s.season_done(ok).0.batch),
            None => s.season_done(ok).1 == SeasonsStepView::Finished(
                aggregate(s.batch->0.recorded(ok)),
            ),
        },
{
    lemma_recorded(s.batch->0, ok);
}

/// When an episode ends, the season goes on with the wanted episode that is
/// next, whether the episode ended well or not; after the last it ends.
/// Every episode but the first of the list has its page opened.
pub proof fn lemma_episode_done(s: SeasonRunState, ok: bool)
    requires
        is_running(s.phase, s.batch),
    ensures
        s.episode_done(ok).0.batch == Some(s.batch->0.recorded(ok)),
        match s.batch->0.recorded(true).current() {
            Some(episode) => s.episode_done(ok).1 == (SeasonStepView::RunEpisode {
                episode,
                goto: true,
                max: s.max,
            }) && is_running(s.episode_done(ok).0.phase, s.episode_done(ok).0.batch),
            None => s.episode_done(ok).1 == SeasonStepView::Finished(
                aggregate(s.batch->0.recorded(ok)),
            ),
        },
{
    lemma_recorded(s.batch->0, ok);
}

/// Best-effort aggregation over the seasons of a series: the scope ends
/// only after every wanted season was attempted, and it ends in `Incomplete`
/// exactly when one of them, or one before them, failed.
pub proof fn lemma_seasons_result(s: SeasonsRunState, ends_well: Outcomes)
    requires
        is_running(s.phase, s.batch),
    ensures
        s.result(ends_well) == aggregate(s.batch->0.finished(ends_well)),
        s.result(ends_well) is Ok <==> (!s.batch->0.got_error && forall|i: int|
            s.batch->0.position <= i < s.batch->0.items.len() && is_wanted(
                s.batch->0.selection,
                #[trigger] s.batch->0.items[i],
            ) ==> ends_well(i)),
        s.result(ends_well) is Err ==> s.result(ends_well) == Err::<(), ScrapeError>(
            ScrapeError::Incomplete,
        ),
    decreases s.batch->0.items.len() - s.batch->0.position,
{
    let b = s.batch->0;
    let ok = ends_well(b.position as int);
    lemma_season_done(s, ok);
    lemma_recorded(b, ok);
    lemma_finished(b, ends_well);
    let (next, step) = s.season_done(ok);
    if b.recorded(true).current() is Some {
        lemma_seasons_result(next, ends_well);
    }
    lemma_fails_ahead(b, ends_well);
}

/// Best-effort aggregation over the episodes of a season: the season ends
/// only after every wanted episode was attempted, and it ends in
/// `Incomplete` exactly when one of them, or one before them, failed.
pub proof fn lemma_season_result(s: SeasonRunState, ends_well: Outcomes)
    requires
        is_running(s.phase, s.batch),
    ensures
        s.result(ends_well) == aggregate(s.batch->0.finished(ends_well)),
        s.result(ends_well) is Ok <==> (!s.batch->0.got_error && forall|i: int|
            s.batch->0.position <= i < s.batch->0.items.len() && is_wanted(
                s.batch->0.selection,
                #[trigger] s.batch->0.items[i],
            ) ==> ends_well(i)),
        s.result(ends_well) is Err ==> s.result(ends_well) == Err::<(), ScrapeError>(
            ScrapeError::Incomplete,
        ),
    decreases s.batch->0.items.len() - s.batch->0.position,
{
    let b = s.batch->0;
    let ok = ends_well(b.position as int);
    lemma_episode_done(s, ok);
    lemma_recorded(b, ok);
    lemma_finished(b, ends_well);
    let (next, step) = s.episode_done(ok);
    if b.recorded(true).current() is Some {
        lemma_season_result(next, ends_well);
    }
    lemma_fails_ahead(b, ends_well);
}

/// A batch has failed at its end exactly when it had failed before or not
/// every wanted item ahead ends well.
proof fn lemma_fails_ahead(b: BatchState, ends_well: Outcomes)
    requires
        b.wf(),
    ensures
        !b.finished(ends_well).got_error <==> (!b.got_error && forall|i: int|
            b.position <= i < b.items.len() && is_wanted(b.selection, #[trigger] b.items[i])
                ==> ends_well(i)),
{
    lemma_finished(b, ends_well);
    if !b.finished(ends_well).got_error {
        assert forall|i: int|
            b.position <= i < b.items.len() && is_wanted(
                b.selection,
                #[trigger] b.items[i],
            ) implies ends_well(i) by {}
    }
}

} // verus!
