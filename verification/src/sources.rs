//! The hosting platforms that offer an episode: which of the links on a
//! page can be used, and in which order the platforms are tried.

use crate::text::{chars_of, eq_ignoring_ascii_case, same_ignoring_ascii_case, text_views};
use vstd::prelude::*;

verus! {

/// A link to a hosting platform that was found on an episode page.
#[derive(Debug, Clone, PartialEq, Eq)]
pub struct CandidateSource {
    /// The platform's name as the page shows it.
    pub name: String,
    /// The absolute address that redirects to the platform.
    pub url: String,
}

/// One entry of the caller's order of preference among platforms.
#[derive(Debug, Clone, PartialEq, Eq)]
pub enum ExtractorMatch {
    /// The platform that answers to this name.
    Name(String),
    /// Every platform that is left.
    Any,
}

/// The names that one extractor answers to.
pub type ExtractorNames = Vec<String>;

impl View for ExtractorMatch {
    type V = Option<Seq<char>>;

    /// The name of a named entry; `None` for the wildcard.
    open spec fn view(&self) -> Option<Seq<char>> {
        match self {
            ExtractorMatch::Name(name) => Some(name@),
            ExtractorMatch::Any => None,
        }
    }
}

/// A catalog as mathematical values: for each extractor the names it answers to.
pub open spec fn catalog_view(catalog: Seq<ExtractorNames>) -> Seq<Seq<Seq<char>>> {
    Seq::new(catalog.len(), |e: int| text_views(catalog[e]@))
}

/// The priorities as mathematical values: the name of each named entry, and
/// `None` for the wildcard.
pub open spec fn priority_views(priorities: Seq<ExtractorMatch>) -> Seq<Option<Seq<char>>> {
    Seq::new(priorities.len(), |p: int| priorities[p]@)
}

/// The platform name of each candidate.
pub open spec fn platform_names(candidates: Seq<CandidateSource>) -> Seq<Seq<char>> {
    Seq::new(candidates.len(), |i: int| candidates[i].name@)
}

/// One of `names` is `name`, up to the case of ASCII letters.
pub open spec fn answers_to(names: Seq<Seq<char>>, name: Seq<char>) -> bool {
    exists|i: int| 0 <= i < names.len() && same_ignoring_ascii_case(#[trigger] names[i], name)
}

/// `a` and `b` name the same platform: one extractor of the catalog answers
/// to both.
pub open spec fn same_platform(catalog: Seq<Seq<Seq<char>>>, a: Seq<char>, b: Seq<char>) -> bool {
    exists|e: int|
        0 <= e < catalog.len() && answers_to(#[trigger] catalog[e], a) && answers_to(catalog[e], b)
}

/// Candidate `i` is still free and its platform answers to `name`.
pub open spec fn is_match(
    catalog: Seq<Seq<Seq<char>>>,
    name: Seq<char>,
    platforms: Seq<Seq<char>>,
    taken: Seq<int>,
    i: int,
) -> bool {
    !taken.contains(i) && same_platform(catalog, name, platforms[i])
}

/// The first candidate at or after `from` that is free and answers to `name`.
pub open spec fn first_match_from(
    catalog: Seq<Seq<Seq<char>>>,
    name: Seq<char>,
    platforms: Seq<Seq<char>>,
    taken: Seq<int>,
    from: int,
) -> Option<int>
    decreases platforms.len() - from,
{
    if from < 0 || from >= platforms.len() {
        None
    } else if is_match(catalog, name, platforms, taken, from) {
        Some(from)
    } else {
        first_match_from(catalog, name, platforms, taken, from + 1)
    }
}

/// The candidates below `n` that are still free, in the order of discovery.
pub open spec fn unclaimed(taken: Seq<int>, n: nat) -> Seq<int>
    decreases n,
{
    if n == 0 {
        Seq::<int>::empty()
    } else if taken.contains(n - 1) {
        unclaimed(taken, (n - 1) as nat)
    } else {
        unclaimed(taken, (n - 1) as nat).push(n - 1)
    }
}

/// The order of attempts that results when `taken` is the order so far and
/// `priorities` are the entries still to walk.
///
/// A named entry takes the first free candidate that answers to its name, if
/// there is one. The wildcard takes every free candidate in the order of
/// discovery and ends the walk.
pub open spec fn attempt_order_from(
    catalog: Seq<Seq<Seq<char>>>,
    priorities: Seq<Option<Seq<char>>>,
    platforms: Seq<Seq<char>>,
    taken: Seq<int>,
) -> Seq<int>
    decreases priorities.len(),
{
    if priorities.len() == 0 {
        taken
    } else {
        match priorities[0] {
            None => taken + unclaimed(taken, platforms.len()),
            Some(name) => match first_match_from(catalog, name, platforms, taken, 0) {
                Some(i) => attempt_order_from(
                    catalog,
                    priorities.drop_first(),
                    platforms,
                    taken.push(i),
                ),
                None => attempt_order_from(catalog, priorities.drop_first(), platforms, taken),
            },
        }
    }
}

/// The candidates to try, by index, in the order to try them, where
/// `platforms` are the platform names of the candidates in the order of
/// discovery.
pub open spec fn attempt_order(
    catalog: Seq<Seq<Seq<char>>>,
    priorities: Seq<Option<Seq<char>>>,
    platforms: Seq<Seq<char>>,
) -> Seq<int> {
    attempt_order_from(catalog, priorities, platforms, Seq::<int>::empty())
}

/// The first free candidate that answers to `name` is `i` if `i` is free and
/// answers to it and no candidate from `from` up to `i` does.
pub proof fn lemma_first_match(
    catalog: Seq<Seq<Seq<char>>>,
    name: Seq<char>,
    candidates: Seq<Seq<char>>,
    taken: Seq<int>,
    from: int,
    i: int,
)
    requires
        0 <= from <= i <= candidates.len(),
        forall|j: int| from <= j < i ==> !is_match(catalog, name, candidates, taken, j),
        i < candidates.len() ==> is_match(catalog, name, candidates, taken, i),
    ensures
        first_match_from(catalog, name, candidates, taken, from) == (if i < candidates.len() {
            Some(i)
        } else {
            None
        }),
    decreases i - from,
{
    if from < i {
        lemma_first_match(catalog, name, candidates, taken, from + 1, i);
    }
}

/// Whether one of `names` is `name`, up to the case of ASCII letters.
fn names_include(names: &Vec<String>, name: &Vec<char>) -> (r: bool)
    ensures
        r == answers_to(text_views(names@), name@),
{
    let ghost views = text_views(names@);
    let mut i: usize = 0;
    while i < names.len()
        invariant
            i <= names.len(),
            views == text_views(names@),
            forall|j: int| 0 <= j < i ==> !same_ignoring_ascii_case(#[trigger] views[j], name@),
        decreases names.len() - i,
    {
        let alias = chars_of(names[i].as_str());
        assert(views[i as int] == names@[i as int]@);
        if eq_ignoring_ascii_case(&alias, name) {
            return true;
        }
        i += 1;
    }
    false
}

/// Whether `a` and `b` name the same platform: whether one extractor of the
/// catalog answers to both, the case of ASCII letters aside.
pub fn is_same_platform(catalog: &Vec<ExtractorNames>, a: &str, b: &str) -> (r: bool)
    ensures
        r == same_platform(catalog_view(catalog@), a@, b@),
{
    let ghost view = catalog_view(catalog@);
    let a_chars = chars_of(a);
    let b_chars = chars_of(b);
    let mut e: usize = 0;
    while e < catalog.len()
        invariant
            e <= catalog.len(),
            view == catalog_view(catalog@),
            a_chars@ == a@,
            b_chars@ == b@,
            forall|j: int|
                0 <= j < e ==> !(answers_to(#[trigger] view[j], a@) && answers_to(view[j], b@)),
        decreases catalog.len() - e,
    {
        assert(view[e as int] == text_views(catalog@[e as int]@));
        if names_include(&catalog[e], &a_chars) && names_include(&catalog[e], &b_chars) {
            return true;
        }
        e += 1;
    }
    false
}

/// The order of attempts as numbers.
pub open spec fn as_ints(order: Seq<usize>) -> Seq<int> {
    Seq::new(order.len(), |k: int| order[k] as int)
}

/// The first free candidate whose platform answers to `name`.
fn find_match(
    catalog: &Vec<ExtractorNames>,
    name: &str,
    candidates: &Vec<CandidateSource>,
    order: &Vec<usize>,
    free: &Vec<bool>,
) -> (r: Option<usize>)
    requires
        free.len() == candidates.len(),
        forall|i: int| 0 <= i < free.len() ==> (free[i] <==> !as_ints(order@).contains(i)),
    ensures
        match r {
            Some(i) => first_match_from(
                catalog_view(catalog@),
                name@,
                platform_names(candidates@),
                as_ints(order@),
                0,
            ) == Some(i as int) && i < candidates.len() && free[i as int],
            None => first_match_from(
                catalog_view(catalog@),
                name@,
                platform_names(candidates@),
                as_ints(order@),
                0,
            ) is None,
        },
{
    let ghost taken = as_ints(order@);
    let ghost view = catalog_view(catalog@);
    let ghost platforms = platform_names(candidates@);
    let mut i: usize = 0;
    while i < candidates.len()
        invariant
            i <= candidates.len(),
            free.len() == candidates.len(),
            taken == as_ints(order@),
            view == catalog_view(catalog@),
            platforms == platform_names(candidates@),
            forall|j: int| 0 <= j < free.len() ==> (free[j] <==> !taken.contains(j)),
            forall|j: int| 0 <= j < i ==> !is_match(view, name@, platforms, taken, j),
        decreases candidates.len() - i,
    {
        assert(platforms[i as int] == candidates@[i as int].name@);
        if free[i] && is_same_platform(catalog, name, candidates[i].name.as_str()) {
            proof {
                lemma_first_match(view, name@, platforms, taken, 0, i as int);
            }
            return Some(i);
        }
        i += 1;
    }
    proof {
        lemma_first_match(view, name@, platforms, taken, 0, i as int);
    }
    None
}

/// Orders the candidates of an episode by the caller's preference among
/// platforms, and gives their indices in the order of attempts.
///
/// Each named entry pulls the first candidate not taken before whose
/// platform answers to that name. The wildcard entry adds every candidate
/// that is left, in the order of discovery, and entries after it are not
/// looked at. Without a wildcard, candidates that no entry names are left out.
pub fn order_candidates(
    catalog: &Vec<ExtractorNames>,
    priorities: &Vec<ExtractorMatch>,
    candidates: &Vec<CandidateSource>,
) -> (order: Vec<usize>)
    ensures
        as_ints(order@) == attempt_order(
            catalog_view(catalog@),
            priority_views(priorities@),
            platform_names(candidates@),
        ),
{
    let ghost view = catalog_view(catalog@);
    let ghost wishes = priority_views(priorities@);
    let ghost platforms = platform_names(candidates@);
    let n = candidates.len();
    let mut free: Vec<bool> = Vec::new();
    while free.len() < n
        invariant
            free.len() <= n,
            forall|i: int| 0 <= i < free.len() ==> free[i],
        decreases n - free.len(),
    {
        free.push(true);
    }
    let mut order: Vec<usize> = Vec::new();
    let mut p: usize = 0;
    assert(wishes.skip(0) =~= wishes);
    assert(as_ints(order@) =~= Seq::<int>::empty());
    while p < priorities.len()
        invariant
            p <= priorities.len(),
            n == candidates.len(),
            free.len() == n,
            view == catalog_view(catalog@),
            wishes == priority_views(priorities@),
            platforms == platform_names(candidates@),
            forall|i: int| 0 <= i < n ==> (free[i] <==> !as_ints(order@).contains(i)),
            attempt_order_from(view, wishes.skip(p as int), platforms, as_ints(order@))
                == attempt_order(view, wishes, platforms),
        decreases priorities.len() - p,
    {
        let ghost taken = as_ints(order@);
        proof {
            assert(wishes.skip(p as int)[0] == priorities@[p as int]@);
            assert(wishes.skip(p as int).drop_first() =~= wishes.skip(p + 1));
        }
        match &priorities[p] {
            ExtractorMatch::Any => {
                let mut i: usize = 0;
                while i < n
                    invariant
                        i <= n,
                        free.len() == n,
                        forall|j: int| 0 <= j < n ==> (free[j] <==> !taken.contains(j)),
                        as_ints(order@) == taken + unclaimed(taken, i as nat),
                    decreases n - i,
                {
                    let ghost before = as_ints(order@);
                    if free[i] {
                        order.push(i);
                        proof {
                            assert(!taken.contains(i as int));
                            assert(unclaimed(taken, (i + 1) as nat) == unclaimed(
                                taken,
                                i as nat,
                            ).push(i as int));
                            assert(as_ints(order@) =~= before.push(i as int));
                        }
                    } else {
                        assert(taken.contains(i as int));
                        assert(unclaimed(taken, (i + 1) as nat) == unclaimed(taken, i as nat));
                    }
                    i += 1;
                }
                return order;
            },
            ExtractorMatch::Name(name) => {
                match find_match(catalog, name.as_str(), candidates, &order, &free) {
                    Some(i) => {
                        order.push(i);
                        free.set(i, false);
                        proof {
                            assert(as_ints(order@) =~= taken.push(i as int));
                            assert forall|j: int| 0 <= j < n implies (free[j] <==> !as_ints(
                                order@,
                            ).contains(j)) by {
                                if j == i {
                                    assert(as_ints(order@)[taken.len() as int] == j);
                                } else if taken.contains(j) {
                                    let k = choose|k: int| 0 <= k < taken.len() && taken[k] == j;
                                    assert(as_ints(order@)[k] == j);
                                } else if as_ints(order@).contains(j) {
                                    let k = choose|k: int|
                                        0 <= k < as_ints(order@).len() && as_ints(order@)[k] == j;
                                    assert(taken[k] == j);
                                }
                            }
                        }
                    },
                    None => {},
                }
            },
        }
        p += 1;
    }
    order
}

} // verus!
