//! Laws of the skip check: whatever the existence check answers, the
//! decision is the one that the answers call for, and it is made as soon as
//! they allow.

use crate::existence::{skippable, variant_present, Found, SkipCheckState};
use crate::variant::VideoType;
use vstd::prelude::*;

verus! {

/// Before any probe nothing contradicts any set of answers, and a decision
/// made at once is the right one.
pub proof fn lemma_initial_agrees(
    wildcard: bool,
    variants: Seq<VideoType>,
    guesses: Seq<Option<u32>>,
    found: Found,
)
    ensures
        SkipCheckState::initial(wildcard, variants, guesses).wf(),
        SkipCheckState::initial(wildcard, variants, guesses).agrees(found),
{
    let s = SkipCheckState::initial(wildcard, variants, guesses);
    if variants.len() > 0 && guesses.len() == 0 {
        assert(!variant_present(found, 0, guesses.len()));
    }
}

/// An answer that `found` gives keeps the state in agreement with `found`.
pub proof fn lemma_recorded_agrees(s: SkipCheckState, found: Found)
    requires
        s.wf(),
        s.verdict is None,
        s.agrees(found),
    ensures
        s.recorded(found(s.variant as int, s.guess as int)).agrees(found),
{
    let v = s.variant as int;
    let g = s.guess as int;
    let guesses = s.guesses.len();
    let answer = found(v, g);
    let next = s.recorded(answer);
    if answer {
        assert(variant_present(found, v, guesses));
    } else if g + 1 >= guesses {
        assert(!variant_present(found, v, guesses));
    }
    match next.verdict {
        Some(verdict) => {
            if verdict {
                if !s.wildcard {
                    assert forall|w: int| 0 <= w < s.variants.len() implies #[trigger] variant_present(
                        found,
                        w,
                        guesses,
                    ) by {
                        if w < v {
                            assert(variant_present(found, w, guesses) <==> !s.wildcard);
                        }
                    }
                }
            } else {
                if s.wildcard {
                    assert forall|w: int| 0 <= w < s.variants.len() implies !#[trigger] variant_present(
                        found,
                        w,
                        guesses,
                    ) by {
                        if w < v {
                            assert(variant_present(found, w, guesses) <==> !s.wildcard);
                        }
                    }
                }
            }
        },
        None => {
            if next.variant == s.variant {
                assert forall|h: int| 0 <= h < next.guess implies !#[trigger] found(
                    next.variant as int,
                    h,
                ) by {}
            } else {
                assert forall|w: int| 0 <= w < next.variant implies (#[trigger] variant_present(
                    found,
                    w,
                    guesses,
                ) <==> !s.wildcard) by {
                    if w < v {
                        assert(variant_present(found, w, guesses) <==> !s.wildcard);
                    }
                }
            }
        },
    }
}

/// From a state that agrees with `found`, answering every probe by `found`
/// leads to the decision that `found` calls for.
pub proof fn lemma_verdict_under(s: SkipCheckState, found: Found)
    requires
        s.wf(),
        s.agrees(found),
    ensures
        s.verdict_under(found) == skippable(
            s.wildcard,
            s.variants.len(),
            s.guesses.len(),
            found,
        ),
    decreases s.probes_left(),
{
    if s.verdict is None {
        let answer = found(s.variant as int, s.guess as int);
        s.lemma_recorded(answer);
        lemma_recorded_agrees(s, found);
        lemma_verdict_under(s.recorded(answer), found);
    }
}

/// Existence aggregation: a skip check that is answered by `found` from
/// start to end decides to skip exactly when, for a wildcard request, some
/// variant exists under some guess, and for any other request, every variant
/// exists under some guess.
pub proof fn lemma_skip_check_decides(
    wildcard: bool,
    variants: Seq<VideoType>,
    guesses: Seq<Option<u32>>,
    found: Found,
)
    ensures
        SkipCheckState::initial(wildcard, variants, guesses).verdict_under(found) == skippable(
            wildcard,
            variants.len(),
            guesses.len(),
            found,
        ),
{
    lemma_initial_agrees(wildcard, variants, guesses, found);
    lemma_verdict_under(SkipCheckState::initial(wildcard, variants, guesses), found);
}

/// A wildcard request is settled by the first file that exists: no further
/// probe is made.
pub proof fn lemma_wildcard_skips_at_first_match(s: SkipCheckState)
    requires
        s.wildcard,
        s.verdict is None,
    ensures
        s.recorded(true).verdict == Some(true),
        s.recorded(true).pending() is None,
{
}

/// A request that is no wildcard is settled by the first variant that is
/// missing under every guess: no further probe is made, and the episode is
/// not skipped.
pub proof fn lemma_missing_variant_settles(s: SkipCheckState)
    requires
        !s.wildcard,
        s.verdict is None,
        s.guess + 1 == s.guesses.len(),
    ensures
        s.recorded(false).verdict == Some(false),
        s.recorded(false).pending() is None,
{
}

/// One missing variant prevents skipping for a request that is no wildcard,
/// whatever holds of the other variants.
pub proof fn lemma_one_missing_prevents_skip(variants: nat, guesses: nat, found: Found, v: int)
    requires
        0 <= v < variants,
        !variant_present(found, v, guesses),
    ensures
        !skippable(false, variants, guesses, found),
{
}

/// One file that exists, of whatever variant and under whatever guess, is
/// enough to skip for a wildcard request.
pub proof fn lemma_one_match_allows_skip(variants: nat, guesses: nat, found: Found, v: int, g: int)
    requires
        0 <= v < variants,
        0 <= g < guesses,
        found(v, g),
    ensures
        skippable(true, variants, guesses, found),
{
    assert(variant_present(found, v, guesses));
}

} // verus!
