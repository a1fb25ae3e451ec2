//! One episode: skip it if it was downloaded before; else open its page,
//! find the language variant, collect the hosting platforms that offer it,
//! and try them in the order of preference until one gives a source.

use crate::discovery::{episode_info_of, trim_text, EpisodeInfo, EpisodeInfoView};
use crate::existence::{padding_guess_seq, padding_guesses, SkipCheck, SkipCheckState};
use crate::links::{discover_links, link_views, links_on_page, ResolvedLink};
use crate::protocol::{
    Action, ActionView, ConfigView, DownloadTask, DownloadTaskView, Event, Extraction,
    ScrapeConfig, Step, StepView, VariantLookup,
};
use crate::request::ScrapeError;
use crate::sources::{as_ints, attempt_order, order_candidates, platform_names, CandidateSource};
use crate::sources_laws::{is_selection, lemma_attempt_order_is_selection};
use crate::text::{option_text_view, option_text_views, text_views, trimmed};
use crate::url::episode_url_text;
use crate::variant::VideoType;
use vstd::prelude::*;

verus! {

/// What an episode run waits for.
#[derive(Debug, Clone, Copy, PartialEq, Eq, Structural)]
pub enum EpisodePhase {
    /// The answer to a probe of the skip check.
    Probing,
    /// The episode page to open.
    Navigating,
    /// The pause after the page was opened.
    Settling,
    /// Title and episode list of the page.
    ReadingPage,
    /// Whether the page offers the variant looked for.
    LocatingVariant,
    /// The links of the page in the variant found.
    ListingStreams,
    /// The name of a platform.
    Naming,
    /// The result of an extractor.
    Extracting,
    /// The pause after an extractor failed.
    Cooling,
    /// The hand-over of the task.
    Emitting,
    /// The pause after the hand-over.
    Finishing,
    /// Nothing: the run is over.
    Done,
}

/// The state of an episode run as mathematical values.
pub struct EpisodeRunState {
    pub season: u32,
    pub episode: u32,
    /// Whether the episode page has to be opened first.
    pub goto: bool,
    pub phase: EpisodePhase,
    /// The skip check, as far as it has come.
    pub check: Option<SkipCheckState>,
    /// What the episode page told.
    pub info: Option<EpisodeInfoView>,
    /// Index of the variant that is looked for, or that was found.
    pub variant: nat,
    /// The language key of the variant found.
    pub lang_key: Seq<char>,
    /// The address of the episode page.
    pub page_url: Seq<char>,
    /// The links that lead somewhere, each as target and address.
    pub links: Seq<(Seq<char>, Seq<char>)>,
    /// The names of the platforms behind the first links, as far as read.
    pub platforms: Seq<Seq<char>>,
    /// The links in the order of attempts.
    pub order: Seq<int>,
    /// How many attempts were made.
    pub attempt: nat,
}

impl EpisodeRunState {
    /// What each phase relies on.
    pub open spec fn wf(self, cfg: ConfigView) -> bool {
        match self.phase {
            EpisodePhase::Probing => self.check matches Some(check) && check.wf()
                && check.verdict is None,
            EpisodePhase::Navigating | EpisodePhase::Settling | EpisodePhase::ReadingPage => true,
            EpisodePhase::LocatingVariant | EpisodePhase::ListingStreams => self.variant
                < cfg.variants.len() && self.info is Some,
            EpisodePhase::Naming => self.variant < cfg.variants.len() && self.info is Some
                && self.platforms.len() < self.links.len(),
            EpisodePhase::Extracting | EpisodePhase::Cooling => {
                &&& self.variant < cfg.variants.len()
                &&& self.info is Some
                &&& self.platforms.len() == self.links.len()
                &&& self.attempt < self.order.len()
                &&& is_selection(self.order, self.platforms.len())
            },
            EpisodePhase::Emitting | EpisodePhase::Finishing | EpisodePhase::Done => true,
        }
    }

    /// The run ends with the error `e`.
    pub open spec fn fail(self, e: ScrapeError) -> (EpisodeRunState, StepView) {
        (EpisodeRunState { phase: EpisodePhase::Done, ..self }, StepView::Finished(Err(e)))
    }

    /// The episode is not skipped: its page is opened, unless the session
    /// shows it already, and read.
    pub open spec fn proceed(self, cfg: ConfigView) -> (EpisodeRunState, StepView) {
        if self.goto {
            (
                EpisodeRunState { phase: EpisodePhase::Navigating, ..self },
                StepView::Act(
                    ActionView::Navigate {
                        url: episode_url_text(cfg.site, cfg.name, self.season, self.episode),
                    },
                ),
            )
        } else {
            (
                EpisodeRunState { phase: EpisodePhase::ReadingPage, ..self },
                StepView::Act(ActionView::ReadEpisodePage),
            )
        }
    }

    /// The skip check goes on: with its next probe, or with its decision.
    /// An episode that can be skipped ends the run with success.
    pub open spec fn after_check(self, cfg: ConfigView) -> (EpisodeRunState, StepView) {
        match self.check {
            Some(check) => match check.pending() {
                Some(probe) => (
                    EpisodeRunState { phase: EpisodePhase::Probing, ..self },
                    StepView::Act(
                        ActionView::Probe { season: self.season, episode: self.episode, probe },
                    ),
                ),
                None => if check.verdict == Some(true) {
                    (
                        EpisodeRunState { phase: EpisodePhase::Done, ..self },
                        StepView::Finished(Ok(())),
                    )
                } else {
                    self.proceed(cfg)
                },
            },
            None => self.proceed(cfg),
        }
    }

    /// The state in which a run starts.
    pub open spec fn fresh(season: u32, episode: u32, goto: bool) -> EpisodeRunState {
        EpisodeRunState {
            season,
            episode,
            goto,
            phase: EpisodePhase::Done,
            check: None,
            info: None,
            variant: 0,
            lang_key: Seq::<char>::empty(),
            page_url: Seq::<char>::empty(),
            links: Seq::<(Seq<char>, Seq<char>)>::empty(),
            platforms: Seq::<Seq<char>>::empty(),
            order: Seq::<int>::empty(),
            attempt: 0,
        }
    }

    /// The start of a run. Where episodes downloaded before are left out,
    /// the run starts with the skip check, over the variants to look for and
    /// the guesses that `max` gives rise to.
    pub open spec fn begin(
        cfg: ConfigView,
        season: u32,
        episode: u32,
        goto: bool,
        max: Option<u32>,
    ) -> (EpisodeRunState, StepView) {
        let fresh = Self::fresh(season, episode, goto);
        if cfg.skip_existing {
            EpisodeRunState {
                check: Some(
                    SkipCheckState::initial(cfg.wildcard, cfg.variants, padding_guess_seq(max)),
                ),
                ..fresh
            }.after_check(cfg)
        } else {
            fresh.proceed(cfg)
        }
    }

    /// Looks for the variant at the current index, if there is one left.
    pub open spec fn locate(self, cfg: ConfigView) -> (EpisodeRunState, StepView) {
        if self.variant < cfg.selectors.len() {
            (
                EpisodeRunState { phase: EpisodePhase::LocatingVariant, ..self },
                StepView::Act(
                    ActionView::FindVariant { selector: cfg.selectors[self.variant as int] },
                ),
            )
        } else {
            self.fail(ScrapeError::NoStreamsAvailable)
        }
    }

    /// Tries the candidate that is next in the order of attempts, if there is
    /// one left.
    pub open spec fn try_next(self) -> (EpisodeRunState, StepView) {
        if self.attempt < self.order.len() {
            let candidate = self.order[self.attempt as int];
            (
                EpisodeRunState { phase: EpisodePhase::Extracting, ..self },
                StepView::Act(
                    ActionView::Extract {
                        platform: self.platforms[candidate],
                        url: self.links[candidate].1,
                        referer: self.page_url,
                    },
                ),
            )
        } else {
            self.fail(ScrapeError::NoPlayableSource)
        }
    }

    /// Reads the name of the next platform; once every name is read, puts
    /// the candidates in the order of attempts and tries the first.
    pub open spec fn name_next(self, cfg: ConfigView) -> (EpisodeRunState, StepView) {
        if self.platforms.len() < self.links.len() {
            (
                EpisodeRunState { phase: EpisodePhase::Naming, ..self },
                StepView::Act(
                    ActionView::ReadPlatformName {
                        lang_key: self.lang_key,
                        link_target: self.links[self.platforms.len() as int].0,
                    },
                ),
            )
        } else {
            EpisodeRunState {
                order: attempt_order(cfg.catalog, cfg.priorities, self.platforms),
                attempt: 0,
                ..self
            }.try_next()
        }
    }

    /// The task for the candidate that gave a source.
    pub open spec fn task(self, cfg: ConfigView) -> DownloadTaskView {
        let candidate = self.order[self.attempt as int];
        DownloadTaskView {
            episode_info: self.info->0,
            video_type: cfg.variants[self.variant as int],
            platform: self.platforms[candidate],
            url: self.links[candidate].1,
        }
    }

    /// The state after `event`, and what is to be done next.
    pub open spec fn next(self, cfg: ConfigView, event: Event) -> (EpisodeRunState, StepView) {
        match (self.phase, event) {
            (EpisodePhase::Probing, Event::Exists(present)) => EpisodeRunState {
                check: Some(self.check->0.recorded(present)),
                ..self
            }.after_check(cfg),
            (EpisodePhase::Navigating, Event::Navigated(opened)) => if opened {
                (
                    EpisodeRunState { phase: EpisodePhase::Settling, ..self },
                    StepView::Act(ActionView::Wait { page_load: true }),
                )
            } else {
                self.fail(ScrapeError::NavigationFailure)
            },
            (EpisodePhase::Settling, Event::Waited) => (
                EpisodeRunState { phase: EpisodePhase::ReadingPage, ..self },
                StepView::Act(ActionView::ReadEpisodePage),
            ),
            (EpisodePhase::ReadingPage, Event::EpisodePage(Some(page))) => EpisodeRunState {
                info: Some(
                    episode_info_of(
                        self.season,
                        self.episode,
                        option_text_view(page.title),
                        text_views(page.labels@),
                    ),
                ),
                variant: 0,
                ..self
            }.locate(cfg),
            (EpisodePhase::ReadingPage, Event::EpisodePage(None)) => self.fail(
                ScrapeError::DiscoveryFailure,
            ),
            (EpisodePhase::LocatingVariant, Event::Variant(VariantLookup::Absent)) => EpisodeRunState {
                variant: self.variant + 1,
                ..self
            }.locate(cfg),
            (
                EpisodePhase::LocatingVariant,
                Event::Variant(VariantLookup::Present { lang_key: Some(key) }),
            ) => (
                EpisodeRunState { phase: EpisodePhase::ListingStreams, lang_key: key@, ..self },
                StepView::Act(ActionView::ListStreams { lang_key: key@ }),
            ),
            (
                EpisodePhase::LocatingVariant,
                Event::Variant(VariantLookup::Present { lang_key: None }),
            ) => self.fail(ScrapeError::DiscoveryFailure),
            (EpisodePhase::ListingStreams, Event::Streams(Some(list))) => if list.link_targets@.len()
                == 0 {
                self.fail(ScrapeError::NoStreamsAvailable)
            } else {
                EpisodeRunState {
                    page_url: list.page_url@,
                    links: links_on_page(list.page_url@, option_text_views(list.link_targets@)),
                    platforms: Seq::<Seq<char>>::empty(),
                    ..self
                }.name_next(cfg)
            },
            (EpisodePhase::ListingStreams, Event::Streams(None)) => self.fail(
                ScrapeError::DiscoveryFailure,
            ),
            (EpisodePhase::Naming, Event::PlatformName(Some(shown))) => EpisodeRunState {
                platforms: self.platforms.push(trimmed(shown@)),
                ..self
            }.name_next(cfg),
            (EpisodePhase::Naming, Event::PlatformName(None)) => self.fail(
                ScrapeError::DiscoveryFailure,
            ),
            (EpisodePhase::Extracting, Event::Extracted(Extraction::Extracted)) => (
                EpisodeRunState { phase: EpisodePhase::Emitting, info: None, ..self },
                StepView::Act(ActionView::Emit(self.task(cfg))),
            ),
            (EpisodePhase::Extracting, Event::Extracted(Extraction::Failed)) => (
                EpisodeRunState { phase: EpisodePhase::Cooling, ..self },
                StepView::Act(ActionView::Wait { page_load: false }),
            ),
            (EpisodePhase::Extracting, Event::Extracted(Extraction::NoExtractor)) => EpisodeRunState {
                attempt: self.attempt + 1,
                ..self
            }.try_next(),
            (EpisodePhase::Cooling, Event::Waited) => EpisodeRunState {
                attempt: self.attempt + 1,
                ..self
            }.try_next(),
            (EpisodePhase::Emitting, Event::Sent) => (
                EpisodeRunState { phase: EpisodePhase::Finishing, ..self },
                StepView::Act(ActionView::Wait { page_load: false }),
            ),
            (EpisodePhase::Finishing, Event::Waited) => (
                EpisodeRunState { phase: EpisodePhase::Done, ..self },
                StepView::Finished(Ok(())),
            ),
            _ => self.fail(ScrapeError::UnexpectedEvent),
        }
    }
}

/// An episode run in progress.
pub struct EpisodeRun {
    season: u32,
    episode: u32,
    goto: bool,
    phase: EpisodePhase,
    check: Option<SkipCheck>,
    info: Option<EpisodeInfo>,
    variant: usize,
    lang_key: String,
    page_url: String,
    links: Vec<ResolvedLink>,
    candidates: Vec<CandidateSource>,
    order: Vec<usize>,
    attempt: usize,
}

impl View for EpisodeRun {
    type V = EpisodeRunState;

    closed spec fn view(&self) -> EpisodeRunState {
        EpisodeRunState {
            season: self.season,
            episode: self.episode,
            goto: self.goto,
            phase: self.phase,
            check: match self.check {
                Some(check) => Some(check@),
                None => None,
            },
            info: match self.info {
                Some(info) => Some(info@),
                None => None,
            },
            variant: self.variant as nat,
            lang_key: self.lang_key@,
            page_url: self.page_url@,
            links: link_views(self.links@),
            platforms: platform_names(self.candidates@),
            order: as_ints(self.order@),
            attempt: self.attempt as nat,
        }
    }
}

/// The variants of a configuration, in their order.
fn variants_of(cfg: &ScrapeConfig) -> (r: Vec<VideoType>)
    ensures
        r@ == cfg@.variants,
{
    let mut r: Vec<VideoType> = Vec::new();
    let mut i: usize = 0;
    while i < cfg.selectors.len()
        invariant
            i <= cfg.selectors.len(),
            r@.len() == i,
            forall|j: int| 0 <= j < i ==> r@[j] == cfg.selectors@[j].0,
        decreases cfg.selectors.len() - i,
    {
        r.push(cfg.selectors[i].0);
        i += 1;
    }
    assert(r@ =~= cfg@.variants);
    r
}

impl EpisodeRun {
    /// Each candidate stands for the link at its index.
    pub closed spec fn inv(&self) -> bool {
        &&& self.candidates@.len() <= self.links@.len()
        &&& forall|i: int|
            0 <= i < self.candidates@.len() ==> (#[trigger] self.candidates@[i]).url@
                == self.links@[i].url@
    }

    /// The season of the episode.
    pub fn season(&self) -> (r: u32)
        ensures
            r == self@.season,
    {
        self.season
    }

    /// The number of the episode within its season.
    pub fn episode(&self) -> (r: u32)
        ensures
            r == self@.episode,
    {
        self.episode
    }

    fn fail(&mut self, e: ScrapeError) -> (r: Step)
        requires
            old(self).inv(),
        ensures
            final(self).inv(),
            final(self)@ == old(self)@.fail(e).0,
            r@ == old(self)@.fail(e).1,
            final(self)@.phase == EpisodePhase::Done,
    {
        self.phase = EpisodePhase::Done;
        Step::Finished(Err(e))
    }

    fn proceed(&mut self, cfg: &ScrapeConfig) -> (r: Step)
        requires
            old(self).inv(),
        ensures
            final(self).inv(),
            final(self)@ == old(self)@.proceed(cfg@).0,
            r@ == old(self)@.proceed(cfg@).1,
            final(self)@.wf(cfg@),
            r is Act,
    {
        if self.goto {
            self.phase = EpisodePhase::Navigating;
            Step::Act(Action::Navigate { url: cfg.url.get_episode_url(self.season, self.episode) })
        } else {
            self.phase = EpisodePhase::ReadingPage;
            Step::Act(Action::ReadEpisodePage)
        }
    }

    fn after_check(&mut self, cfg: &ScrapeConfig) -> (r: Step)
        requires
            old(self).inv(),
            old(self)@.check matches Some(check) ==> check.wf(),
        ensures
            final(self).inv(),
            final(self)@ == old(self)@.after_check(cfg@).0,
            r@ == old(self)@.after_check(cfg@).1,
            final(self)@.wf(cfg@),
            old(self)@.check matches Some(check) && check.verdict is None ==> r is Act,
            old(self)@.check is None ==> r is Act,
    {
        let pending = match &self.check {
            Some(check) => Some((check.next_probe(), check.verdict())),
            None => None,
        };
        match pending {
            Some((Some(probe), _)) => {
                self.phase = EpisodePhase::Probing;
                Step::Act(Action::Probe { season: self.season, episode: self.episode, probe })
            },
            Some((None, Some(true))) => {
                self.phase = EpisodePhase::Done;
                Step::Finished(Ok(()))
            },
            _ => self.proceed(cfg),
        }
    }

    /// Starts the run for an episode of a season. `goto` tells whether the
    /// episode page has to be opened first; `max` is the highest episode
    /// number of the season, if it is known.
    pub fn begin(cfg: &ScrapeConfig, season: u32, episode: u32, goto: bool, max: Option<u32>) -> (r:
        (EpisodeRun, Step))
        ensures
            r.0.inv(),
            r.0@ == EpisodeRunState::begin(cfg@, season, episode, goto, max).0,
            r.1@ == EpisodeRunState::begin(cfg@, season, episode, goto, max).1,
            r.0@.wf(cfg@),
            cfg@.wf() ==> r.1 is Act,
    {
        let mut run = EpisodeRun {
            season,
            episode,
            goto,
            phase: EpisodePhase::Done,
            check: None,
            info: None,
            variant: 0,
            lang_key: String::new(),
            page_url: String::new(),
            links: Vec::new(),
            candidates: Vec::new(),
            order: Vec::new(),
            attempt: 0,
        };
        assert(run@ =~= EpisodeRunState::fresh(season, episode, goto)) by {
            assert(link_views(run.links@) =~= Seq::<(Seq<char>, Seq<char>)>::empty());
            assert(platform_names(run.candidates@) =~= Seq::<Seq<char>>::empty());
            assert(as_ints(run.order@) =~= Seq::<int>::empty());
        }
        if cfg.skip_existing {
            let check = SkipCheck::new(&cfg.language, variants_of(cfg), padding_guesses(max));
            run.check = Some(check);
            let step = run.after_check(cfg);
            (run, step)
        } else {
            let step = run.proceed(cfg);
            (run, step)
        }
    }

    fn locate(&mut self, cfg: &ScrapeConfig) -> (r: Step)
        requires
            old(self).inv(),
            old(self)@.info is Some,
        ensures
            final(self).inv(),
            final(self)@ == old(self)@.locate(cfg@).0,
            r@ == old(self)@.locate(cfg@).1,
            final(self)@.wf(cfg@),
    {
        if self.variant < cfg.selectors.len() {
            self.phase = EpisodePhase::LocatingVariant;
            Step::Act(
                Action::FindVariant { selector: String::from_str(cfg.selectors[self.variant].1) },
            )
        } else {
            self.fail(ScrapeError::NoStreamsAvailable)
        }
    }

    fn try_next(&mut self, cfg: &ScrapeConfig) -> (r: Step)
        requires
            old(self).inv(),
            old(self)@.info is Some,
            old(self)@.variant < cfg@.variants.len(),
            old(self)@.platforms.len() == old(self)@.links.len(),
            is_selection(old(self)@.order, old(self)@.platforms.len()),
        ensures
            final(self).inv(),
            final(self)@ == old(self)@.try_next().0,
            r@ == old(self)@.try_next().1,
            final(self)@.wf(cfg@),
    {
        if self.attempt < self.order.len() {
            let candidate = self.order[self.attempt];
            assert(as_ints(self.order@)[self.attempt as int] == candidate);
            assert(candidate < self.candidates.len());
            self.phase = EpisodePhase::Extracting;
            let platform = self.candidates[candidate].name.clone();
            let url = self.candidates[candidate].url.clone();
            let referer = self.page_url.clone();
            Step::Act(Action::Extract { platform, url, referer })
        } else {
            self.fail(ScrapeError::NoPlayableSource)
        }
    }

    fn name_next(&mut self, cfg: &ScrapeConfig) -> (r: Step)
        requires
            old(self).inv(),
            old(self)@.info is Some,
            old(self)@.variant < cfg@.variants.len(),
        ensures
            final(self).inv(),
            final(self)@ == old(self)@.name_next(cfg@).0,
            r@ == old(self)@.name_next(cfg@).1,
            final(self)@.wf(cfg@),
    {
        if self.candidates.len() < self.links.len() {
            self.phase = EpisodePhase::Naming;
            let lang_key = self.lang_key.clone();
            let link_target = self.links[self.candidates.len()].target.clone();
            Step::Act(Action::ReadPlatformName { lang_key, link_target })
        } else {
            self.order = order_candidates(&cfg.catalog, &cfg.extractor_priorities, &self.candidates);
            self.attempt = 0;
            proof {
                lemma_attempt_order_is_selection(
                    cfg@.catalog,
                    cfg@.priorities,
                    platform_names(self.candidates@),
                );
            }
            self.try_next(cfg)
        }
    }

    /// Takes what came of the pending action and tells what to do next.
    ///
    /// An event that answers no pending action ends the run with
    /// `UnexpectedEvent`.
    pub fn step(&mut self, cfg: &ScrapeConfig, event: Event) -> (r: Step)
        requires
            old(self).inv(),
            old(self)@.wf(cfg@),
        ensures
            final(self).inv(),
            final(self)@.wf(cfg@),
            final(self)@ == old(self)@.next(cfg@, event).0,
            r@ == old(self)@.next(cfg@, event).1,
            r is Finished <==> final(self)@.phase == EpisodePhase::Done,
    {
        match (self.phase, event) {
            (EpisodePhase::Probing, Event::Exists(present)) => {
                let mut check = self.check.take().unwrap();
                check.record(present);
                self.check = Some(check);
                self.after_check(cfg)
            },
            (EpisodePhase::Navigating, Event::Navigated(opened)) => {
                if opened {
                    self.phase = EpisodePhase::Settling;
                    Step::Act(Action::Wait { page_load: true })
                } else {
                    self.fail(ScrapeError::NavigationFailure)
                }
            },
            (EpisodePhase::Settling, Event::Waited) => {
                self.phase = EpisodePhase::ReadingPage;
                Step::Act(Action::ReadEpisodePage)
            },
            (EpisodePhase::ReadingPage, Event::EpisodePage(Some(page))) => {
                self.info = Some(
                    EpisodeInfo::from_page(self.season, self.episode, &page.title, &page.labels),
                );
                self.variant = 0;
                self.locate(cfg)
            },
            (EpisodePhase::ReadingPage, Event::EpisodePage(None)) => self.fail(
                ScrapeError::DiscoveryFailure,
            ),
            (EpisodePhase::LocatingVariant, Event::Variant(VariantLookup::Absent)) => {
                let limit = cfg.selectors.len();
                assert(self.variant < limit);
                self.variant = self.variant + 1;
                self.locate(cfg)
            },
            (
                EpisodePhase::LocatingVariant,
                Event::Variant(VariantLookup::Present { lang_key: Some(key) }),
            ) => {
                self.phase = EpisodePhase::ListingStreams;
                self.lang_key = key.clone();
                Step::Act(Action::ListStreams { lang_key: key })
            },
            (
                EpisodePhase::LocatingVariant,
                Event::Variant(VariantLookup::Present { lang_key: None }),
            ) => self.fail(ScrapeError::DiscoveryFailure),
            (EpisodePhase::ListingStreams, Event::Streams(Some(list))) => {
                if list.link_targets.len() == 0 {
                    self.fail(ScrapeError::NoStreamsAvailable)
                } else {
                    self.links = discover_links(list.page_url.as_str(), &list.link_targets);
                    self.page_url = list.page_url;
                    self.candidates = Vec::new();
                    assert(platform_names(self.candidates@) =~= Seq::<Seq<char>>::empty());
                    self.name_next(cfg)
                }
            },
            (EpisodePhase::ListingStreams, Event::Streams(None)) => self.fail(
                ScrapeError::DiscoveryFailure,
            ),
            (EpisodePhase::Naming, Event::PlatformName(Some(shown))) => {
                let ghost before = platform_names(self.candidates@);
                let ghost k = self.candidates@.len() as int;
                assert(link_views(self.links@)[k].1 == self.links@[k].url@);
                let name = trim_text(shown.as_str());
                let url = self.links[self.candidates.len()].url.clone();
                self.candidates.push(CandidateSource { name, url });
                assert(platform_names(self.candidates@) =~= before.push(trimmed(shown@)));
                self.name_next(cfg)
            },
            (EpisodePhase::Naming, Event::PlatformName(None)) => self.fail(
                ScrapeError::DiscoveryFailure,
            ),
            (EpisodePhase::Extracting, Event::Extracted(Extraction::Extracted)) => {
                let candidate = self.order[self.attempt];
                assert(as_ints(self.order@)[self.attempt as int] == candidate);
                assert(candidate < self.candidates.len());
                assert(link_views(self.links@)[candidate as int].1
                    == self.links@[candidate as int].url@);
                assert(platform_names(self.candidates@)[candidate as int]
                    == self.candidates@[candidate as int].name@);
                assert(cfg@.variants[self.variant as int] == cfg.selectors@[self.variant as int].0);
                let episode_info = self.info.take().unwrap();
                let source = CandidateSource {
                    name: self.candidates[candidate].name.clone(),
                    url: self.candidates[candidate].url.clone(),
                };
                self.phase = EpisodePhase::Emitting;
                Step::Act(
                    Action::Emit(
                        DownloadTask {
                            episode_info,
                            video_type: cfg.selectors[self.variant].0,
                            source,
                        },
                    ),
                )
            },
            (EpisodePhase::Extracting, Event::Extracted(Extraction::Failed)) => {
                self.phase = EpisodePhase::Cooling;
                Step::Act(Action::Wait { page_load: false })
            },
            (EpisodePhase::Extracting, Event::Extracted(Extraction::NoExtractor)) => {
                let limit = self.order.len();
                assert(self.attempt < limit);
                self.attempt = self.attempt + 1;
                self.try_next(cfg)
            },
            (EpisodePhase::Cooling, Event::Waited) => {
                let limit = self.order.len();
                assert(self.attempt < limit);
                self.attempt = self.attempt + 1;
                self.try_next(cfg)
            },
            (EpisodePhase::Emitting, Event::Sent) => {
                self.phase = EpisodePhase::Finishing;
                Step::Act(Action::Wait { page_load: false })
            },
            (EpisodePhase::Finishing, Event::Waited) => {
                self.phase = EpisodePhase::Done;
                Step::Finished(Ok(()))
            },
            _ => self.fail(ScrapeError::UnexpectedEvent),
        }
    }
}

} // verus!
