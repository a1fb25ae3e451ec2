//! Laws of an episode run.
//!
//! The skip check: an episode that was downloaded before ends with success
//! and without a page being opened; any other episode goes on to its page.
//!
//! The fallback across hosting platforms: the candidates are tried in the
//! order of attempts, the first that gives a source wins, and the episode
//! fails only when none does.

use crate::episode::{EpisodePhase, EpisodeRunState};
use crate::existence::{skippable, Found, SkipCheckState};
use crate::existence_laws::lemma_recorded_agrees;
use crate::protocol::{ActionView, ConfigView, DownloadTaskView, Event, Extraction, StepView};
use crate::request::ScrapeError;
use vstd::prelude::*;

verus! {

/// What the extractors give: `gives(i)` is what comes of asking for the
/// source of candidate `i`.
pub type Extractions = spec_fn(int) -> Extraction;

impl EpisodeRunState {
    /// The first attempt at or after `from` that gives a source.
    pub open spec fn first_success(self, gives: Extractions, from: nat) -> Option<nat>
        decreases self.order.len() - from,
    {
        if from >= self.order.len() {
            None
        } else if gives(self.order[from as int]) is Extracted {
            Some(from)
        } else {
            self.first_success(gives, from + 1)
        }
    }

    /// What the attempts lead to from here, when the extractors give what
    /// `gives` tells and every pause is waited out: the state at, and the
    /// step after, the first event that does not lead to another attempt.
    pub open spec fn resolve(self, cfg: ConfigView, gives: Extractions) -> (
        EpisodeRunState,
        StepView,
    )
        decreases self.order.len() - self.attempt,
    {
        if self.phase != EpisodePhase::Extracting || self.attempt >= self.order.len() {
            self.fail(ScrapeError::UnexpectedEvent)
        } else {
            match gives(self.order[self.attempt as int]) {
                Extraction::Extracted => self.next(cfg, Event::Extracted(Extraction::Extracted)),
                Extraction::NoExtractor => {
                    let (after, step) = self.next(cfg, Event::Extracted(Extraction::NoExtractor));
                    if after.phase == EpisodePhase::Extracting {
                        after.resolve(cfg, gives)
                    } else {
                        (after, step)
                    }
                },
                Extraction::Failed => {
                    let (cooling, _) = self.next(cfg, Event::Extracted(Extraction::Failed));
                    let (after, step) = cooling.next(cfg, Event::Waited);
                    if after.phase == EpisodePhase::Extracting {
                        after.resolve(cfg, gives)
                    } else {
                        (after, step)
                    }
                },
            }
        }
    }

    /// The state in which one more attempt was made.
    pub open spec fn moved_on(self) -> EpisodeRunState {
        EpisodeRunState { attempt: self.attempt + 1, ..self }
    }

    /// The task for the candidate of attempt `k`.
    pub open spec fn task_of_attempt(self, cfg: ConfigView, k: nat) -> DownloadTaskView {
        EpisodeRunState { attempt: k, ..self }.task(cfg)
    }
}

/// A failed attempt is followed by a pause and then by the next attempt, if
/// there is one; an attempt for which there is no extractor is followed by
/// the next attempt at once.
pub proof fn lemma_failure_leads_to_next_attempt(s: EpisodeRunState, cfg: ConfigView)
    requires
        s.phase == EpisodePhase::Extracting,
    ensures
        s.next(cfg, Event::Extracted(Extraction::Failed)).1 == StepView::Act(
            (ActionView::Wait { page_load: false }),
        ),
        s.next(cfg, Event::Extracted(Extraction::Failed)).0.next(cfg, Event::Waited)
            == s.moved_on().try_next(),
        s.next(cfg, Event::Extracted(Extraction::NoExtractor)) == s.moved_on().try_next(),
{
    let cooling = s.next(cfg, Event::Extracted(Extraction::Failed)).0;
    assert(cooling == EpisodeRunState { phase: EpisodePhase::Cooling, ..s });
    assert(cooling.moved_on().try_next() == s.moved_on().try_next());
}

/// First success wins: the attempts end with the hand-over of the task for
/// the first candidate, in the order of attempts, that gives a source, and
/// no candidate after it is tried. Where no candidate gives a source, the
/// episode fails with `NoPlayableSource`.
pub proof fn lemma_first_success_wins(s: EpisodeRunState, cfg: ConfigView, gives: Extractions)
    requires
        s.phase == EpisodePhase::Extracting,
        s.attempt < s.order.len(),
    ensures
        match s.first_success(gives, s.attempt) {
            Some(k) => {
                &&& s.attempt <= k < s.order.len()
                &&& s.resolve(cfg, gives).1 == StepView::Act(
                    ActionView::Emit(s.task_of_attempt(cfg, k)),
                )
                &&& s.resolve(cfg, gives).0.phase == EpisodePhase::Emitting
                &&& s.resolve(cfg, gives).0.attempt == k
            },
            None => s.resolve(cfg, gives).1 == StepView::Finished(
                Err(ScrapeError::NoPlayableSource),
            ),
        },
    decreases s.order.len() - s.attempt,
{
    let outcome = gives(s.order[s.attempt as int]);
    if outcome is Extracted {
        assert(s.task_of_attempt(cfg, s.attempt) == s.task(cfg));
    } else {
        lemma_failure_leads_to_next_attempt(s, cfg);
        let moved = s.moved_on();
        let (after, step) = moved.try_next();
        if moved.attempt < moved.order.len() {
            lemma_first_success_wins(after, cfg, gives);
            assert(after.first_success(gives, after.attempt) == s.first_success(
                gives,
                s.attempt + 1,
            )) by {
                lemma_first_success_depends_on_order(after, s, gives, s.attempt + 1);
            }
            if let Some(k) = s.first_success(gives, s.attempt) {
                assert(after.task_of_attempt(cfg, k) == s.task_of_attempt(cfg, k));
            }
        }
    }
}

/// Which attempt succeeds first depends on the order of attempts alone.
pub proof fn lemma_first_success_depends_on_order(
    a: EpisodeRunState,
    b: EpisodeRunState,
    gives: Extractions,
    from: nat,
)
    requires
        a.order == b.order,
    ensures
        a.first_success(gives, from) == b.first_success(gives, from),
    decreases a.order.len() - from,
{
    if from < a.order.len() && !(gives(a.order[from as int]) is Extracted) {
        lemma_first_success_depends_on_order(a, b, gives, from + 1);
    }
}

/// An episode run that waits for the answer to a probe.
pub open spec fn is_probing(s: EpisodeRunState) -> bool {
    &&& s.phase == EpisodePhase::Probing
    &&& s.check matches Some(check) && check.wf() && check.verdict is None
}

impl EpisodeRunState {
    /// What the skip check leads to from here, when every probe is answered
    /// as `found` tells: the state at, and the step after, the first answer
    /// that is not followed by another probe.
    pub open spec fn after_probes(self, cfg: ConfigView, found: Found) -> (
        EpisodeRunState,
        StepView,
    )
        decreases self.check->0.probes_left(),
        when is_probing(self)
        via Self::after_probes_decreases
    {
        let check = self.check->0;
        let (next, step) = self.next(
            cfg,
            Event::Exists(found(check.variant as int, check.guess as int)),
        );
        if next.phase == EpisodePhase::Probing {
            next.after_probes(cfg, found)
        } else {
            (next, step)
        }
    }

    #[via_fn]
    proof fn after_probes_decreases(self, cfg: ConfigView, found: Found) {
        let check = self.check->0;
        check.lemma_recorded(found(check.variant as int, check.guess as int));
    }

    /// This state with the skip check in the state `check`.
    pub open spec fn with_check(self, check: SkipCheckState) -> EpisodeRunState {
        EpisodeRunState { check: Some(check), ..self }
    }
}

/// Skipping: when the answers so far are those of `found` and every further
/// probe is answered by `found`, an episode that can be skipped ends with
/// success at once, without a page being opened or an extractor being
/// asked; an episode that cannot be skipped goes on to its page.
pub proof fn lemma_skip_check_in_run(s: EpisodeRunState, cfg: ConfigView, found: Found)
    requires
        is_probing(s),
        s.check->0.agrees(found),
    ensures
        ({
            let check = s.check->0;
            let (end, step) = s.after_probes(cfg, found);
            if skippable(check.wildcard, check.variants.len(), check.guesses.len(), found) {
                step == StepView::Finished(Ok(())) && end.phase == EpisodePhase::Done
            } else {
                end.check is Some && (end, step) == s.with_check(end.check->0).proceed(cfg)
            }
        }),
    decreases s.check->0.probes_left(),
{
    let check = s.check->0;
    let answer = found(check.variant as int, check.guess as int);
    let recorded = check.recorded(answer);
    check.lemma_recorded(answer);
    lemma_recorded_agrees(check, found);
    let (next, step) = s.next(cfg, Event::Exists(answer));
    assert((next, step) == s.with_check(recorded).after_check(cfg));
    if next.phase == EpisodePhase::Probing {
        assert(recorded.verdict is None);
        assert(next == EpisodeRunState { phase: EpisodePhase::Probing, ..s.with_check(recorded) });
        lemma_skip_check_in_run(next, cfg, found);
        let (end, last) = next.after_probes(cfg, found);
        if !skippable(check.wildcard, check.variants.len(), check.guesses.len(), found) {
            assert(next.with_check(end.check->0) == s.with_check(end.check->0));
        }
    } else {
        assert(recorded.verdict is Some);
        if !(recorded.verdict == Some(true)) {
            assert(s.with_check(recorded).proceed(cfg) == s.with_check(next.check->0).proceed(cfg));
        }
    }
}

} // verus!
