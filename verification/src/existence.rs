//! Deciding whether an episode can be skipped because it was downloaded
//! before.
//!
//! File names of earlier downloads padded the episode number by the highest
//! episode number of the season, and that number was not always known. So
//! each variant is looked for under several guesses of it. Whether a file
//! exists is for the caller to find out: a `SkipCheck` names one probe after
//! the other and takes the answers.

use crate::variant::VideoType;
use vstd::prelude::*;

verus! {

/// One question to whatever knows the downloaded files: does the episode
/// exist in this variant, named as if the season had this highest episode
/// number?
#[derive(Debug, Clone, Copy, PartialEq, Eq)]
pub struct Probe {
    pub video_type: VideoType,
    pub max_episode_number_in_season: Option<u32>,
}

/// The state of a skip check as mathematical values.
pub struct SkipCheckState {
    /// Whether any variant will do.
    pub wildcard: bool,
    /// The variants to look for, in the order of preference.
    pub variants: Seq<VideoType>,
    /// The guesses of the season's highest episode number, in the order to try.
    pub guesses: Seq<Option<u32>>,
    /// Index of the variant that is being looked for.
    pub variant: nat,
    /// Index of the guess that is asked next.
    pub guess: nat,
    /// The decision, once it is made.
    pub verdict: Option<bool>,
}

/// All the answers that the existence check would give: `found(v, g)` tells
/// whether variant `v` exists under guess `g`.
pub type Found = spec_fn(int, int) -> bool;

/// A variant is present if it exists under at least one guess.
pub open spec fn variant_present(found: Found, v: int, guesses: nat) -> bool {
    exists|g: int| 0 <= g < guesses && #[trigger] found(v, g)
}

/// Whether the episode can be skipped. With a wildcard request one present
/// variant is enough. Otherwise every variant has to be present.
pub open spec fn skippable(wildcard: bool, variants: nat, guesses: nat, found: Found) -> bool {
    if wildcard {
        exists|v: int| 0 <= v < variants && #[trigger] variant_present(found, v, guesses)
    } else {
        forall|v: int| 0 <= v < variants ==> #[trigger] variant_present(found, v, guesses)
    }
}

impl SkipCheckState {
    /// While no decision is made, a probe is pending.
    pub open spec fn wf(self) -> bool {
        self.verdict is None ==> self.variant < self.variants.len() && self.guess
            < self.guesses.len()
    }

    /// The state before any probe. Without variants the decision is made at
    /// once: nothing to find for a wildcard, nothing missing otherwise.
    /// Without guesses no variant can be found.
    pub open spec fn initial(
        wildcard: bool,
        variants: Seq<VideoType>,
        guesses: Seq<Option<u32>>,
    ) -> SkipCheckState {
        SkipCheckState {
            wildcard,
            variants,
            guesses,
            variant: 0,
            guess: 0,
            verdict: if variants.len() == 0 {
                Some(!wildcard)
            } else if guesses.len() == 0 {
                Some(false)
            } else {
                None
            },
        }
    }

    /// The probe that is pending.
    pub open spec fn pending(self) -> Option<Probe> {
        if self.verdict is None {
            Some(
                Probe {
                    video_type: self.variants[self.variant as int],
                    max_episode_number_in_season: self.guesses[self.guess as int],
                },
            )
        } else {
            None
        }
    }

    /// The state that looks for the variant after the current one, or the
    /// decision `at_end` if the current one is the last.
    pub open spec fn next_variant(self, at_end: bool) -> SkipCheckState {
        if self.variant + 1 < self.variants.len() {
            SkipCheckState { variant: self.variant + 1, guess: 0, ..self }
        } else {
            SkipCheckState { verdict: Some(at_end), ..self }
        }
    }

    /// The state after the pending probe was answered.
    ///
    /// A file that exists settles a wildcard request, and settles the current
    /// variant of any other request. A file that does not exist leads to the
    /// next guess; after the last guess the variant is missing, which
    /// settles a request that is no wildcard.
    pub open spec fn recorded(self, present: bool) -> SkipCheckState {
        if present {
            if self.wildcard {
                SkipCheckState { verdict: Some(true), ..self }
            } else {
                self.next_variant(true)
            }
        } else if self.guess + 1 < self.guesses.len() {
            SkipCheckState { guess: self.guess + 1, ..self }
        } else if self.wildcard {
            self.next_variant(false)
        } else {
            SkipCheckState { verdict: Some(false), ..self }
        }
    }

    /// The answers given so far are those of `found`, and the decision, if it
    /// is made, is the one that `found` calls for.
    pub open spec fn agrees(self, found: Found) -> bool {
        match self.verdict {
            Some(verdict) => verdict == skippable(
                self.wildcard,
                self.variants.len(),
                self.guesses.len(),
                found,
            ),
            None => {
                &&& forall|g: int| 0 <= g < self.guess ==> !#[trigger] found(self.variant as int, g)
                &&& forall|v: int|
                    0 <= v < self.variant ==> (#[trigger] variant_present(
                        found,
                        v,
                        self.guesses.len(),
                    ) <==> !self.wildcard)
            },
        }
    }

    /// Number of probes that can still be asked for.
    pub open spec fn probes_left(self) -> nat {
        if self.verdict is None {
            ((self.variants.len() - self.variant) * self.guesses.len() - self.guess) as nat
        } else {
            0
        }
    }

    /// The decision that is reached when every probe is answered by `found`.
    pub open spec fn verdict_under(self, found: Found) -> bool
        recommends
            self.wf(),
        decreases self.probes_left(),
        when self.wf()
        via Self::verdict_under_decreases
    {
        match self.verdict {
            Some(verdict) => verdict,
            None => self.recorded(found(self.variant as int, self.guess as int)).verdict_under(
                found,
            ),
        }
    }

    #[via_fn]
    proof fn verdict_under_decreases(self, found: Found) {
        if self.verdict is None {
            self.lemma_recorded(found(self.variant as int, self.guess as int));
        }
    }

    /// Answering a probe keeps the state well formed and leaves fewer probes.
    pub proof fn lemma_recorded(self, present: bool)
        requires
            self.wf(),
            self.verdict is None,
        ensures
            self.recorded(present).wf(),
            self.recorded(present).probes_left() < self.probes_left(),
            self.recorded(present).wildcard == self.wildcard,
            self.recorded(present).variants == self.variants,
            self.recorded(present).guesses == self.guesses,
    {
        let n = self.variants.len() as int;
        let g = self.guesses.len() as int;
        let v = self.variant as int;
        assert((n - v) * g >= g && (n - v - 1) * g == (n - v) * g - g) by (nonlinear_arith)
            requires
                n - v >= 1,
                g >= 1,
        ;
        if v + 1 < n {
            assert((n - v - 1) * g >= g) by (nonlinear_arith)
                requires
                    n - v - 1 >= 1,
                    g >= 1,
            ;
        }
    }
}

/// The guesses of the season's highest episode number that file names of
/// earlier downloads may rest on: what is known now, a one-digit number, and
/// a two-digit number.
pub open spec fn padding_guess_seq(max_episode_number_in_season: Option<u32>) -> Seq<Option<u32>> {
    seq![max_episode_number_in_season, Some(1u32), Some(10u32)]
}

/// The guesses to try for a season whose highest episode number is
/// `max_episode_number_in_season`, if it is known.
pub fn padding_guesses(max_episode_number_in_season: Option<u32>) -> (r: Vec<Option<u32>>)
    ensures
        r@ == padding_guess_seq(max_episode_number_in_season),
{
    let mut r: Vec<Option<u32>> = Vec::new();
    r.push(max_episode_number_in_season);
    r.push(Some(1));
    r.push(Some(10));
    assert(r@ =~= padding_guess_seq(max_episode_number_in_season));
    r
}

/// A skip check in progress.
pub struct SkipCheck {
    wildcard: bool,
    variants: Vec<VideoType>,
    guesses: Vec<Option<u32>>,
    variant: usize,
    guess: usize,
    verdict: Option<bool>,
}

impl View for SkipCheck {
    type V = SkipCheckState;

    closed spec fn view(&self) -> SkipCheckState {
        SkipCheckState {
            wildcard: self.wildcard,
            variants: self.variants@,
            guesses: self.guesses@,
            variant: self.variant as nat,
            guess: self.guess as nat,
            verdict: self.verdict,
        }
    }
}

impl SkipCheck {
    #[verifier::type_invariant]
    closed spec fn inv(&self) -> bool {
        self@.wf()
    }

    /// Starts a skip check for a request, over the variants that the request
    /// selects and the guesses to try for each of them.
    pub fn new(requested: &VideoType, variants: Vec<VideoType>, guesses: Vec<Option<u32>>) -> (r:
        SkipCheck)
        ensures
            r@ == SkipCheckState::initial(*requested is Unspecified, variants@, guesses@),
            r@.wf(),
    {
        let wildcard = match requested {
            VideoType::Unspecified => true,
            _ => false,
        };
        let verdict = if variants.len() == 0 {
            Some(!wildcard)
        } else if guesses.len() == 0 {
            Some(false)
        } else {
            None
        };
        SkipCheck { wildcard, variants, guesses, variant: 0, guess: 0, verdict }
    }

    /// The decision: `Some(true)` to skip the episode, `Some(false)` to
    /// download it, `None` while probes are pending.
    pub fn verdict(&self) -> (r: Option<bool>)
        ensures
            r == self@.verdict,
    {
        self.verdict
    }

    /// The probe to make next, or `None` once the decision is made.
    pub fn next_probe(&self) -> (r: Option<Probe>)
        ensures
            self@.wf(),
            r == self@.pending(),
    {
        proof {
            use_type_invariant(self);
        }
        match self.verdict {
            Some(_) => None,
            None => Some(
                Probe {
                    video_type: self.variants[self.variant],
                    max_episode_number_in_season: self.guesses[self.guess],
                },
            ),
        }
    }

    /// Takes the answer to the pending probe. Once the decision is made,
    /// further answers change nothing.
    pub fn record(&mut self, present: bool)
        ensures
            old(self)@.wf(),
            final(self)@.wf(),
            final(self)@ == (if old(self)@.verdict is None {
                old(self)@.recorded(present)
            } else {
                old(self)@
            }),
    {
        proof {
            use_type_invariant(&*self);
        }
        if self.verdict.is_some() {
            return ;
        }
        proof {
            self@.lemma_recorded(present);
        }
        assert(self.variant < self.variants.len() && self.guess < self.guesses.len());
        if present && self.wildcard {
            self.verdict = Some(true);
        } else if present || (self.guess + 1 >= self.guesses.len() && self.wildcard) {
            if self.variant + 1 < self.variants.len() {
                self.variant = self.variant + 1;
                self.guess = 0;
            } else {
                self.verdict = Some(present);
            }
        } else if self.guess + 1 < self.guesses.len() {
            self.guess = self.guess + 1;
        } else {
            self.verdict = Some(false);
        }
    }
}

} // verus!
