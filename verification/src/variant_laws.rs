//! Laws of the order in which a site prefers the language variants.

use crate::url::Site;
use crate::variant::{
    accepted, accepts, base_variant_seq, lemma_supported_variants, prioritized, priority_rank,
    ranked, selected_variants, supported_variants, Language, VideoType,
};
use vstd::prelude::*;

verus! {

/// Every rank is one of three.
pub proof fn lemma_rank_bound(site: Site, v: VideoType)
    ensures
        priority_rank(site, v) < 3,
{
}

/// What `ranked` keeps has the rank asked for and comes from `s`, and it is
/// not empty where `s` holds a variant of that rank.
pub proof fn lemma_ranked_members(site: Site, s: Seq<VideoType>, rank: nat)
    ensures
        forall|i: int|
            0 <= i < ranked(site, s, rank).len() ==> priority_rank(
                site,
                #[trigger] ranked(site, s, rank)[i],
            ) == rank && s.contains(ranked(site, s, rank)[i]),
        forall|i: int|
            0 <= i < s.len() && priority_rank(site, #[trigger] s[i]) == rank ==> ranked(
                site,
                s,
                rank,
            ).contains(s[i]),
    decreases s.len(),
{
    let r = ranked(site, s, rank);
    if s.len() > 0 {
        let init = s.drop_last();
        let ri = ranked(site, init, rank);
        lemma_ranked_members(site, init, rank);
        assert forall|i: int| 0 <= i < r.len() implies priority_rank(site, #[trigger] r[i]) == rank
            && s.contains(r[i]) by {
            if i < ri.len() {
                assert(r[i] == ri[i]);
                let k = choose|k: int| 0 <= k < init.len() && init[k] == ri[i];
                assert(s[k] == ri[i]);
            } else {
                assert(r[i] == s[s.len() - 1]);
            }
        }
        assert forall|i: int|
            0 <= i < s.len() && priority_rank(site, #[trigger] s[i]) == rank implies r.contains(
            s[i],
        ) by {
            if i < init.len() {
                assert(init[i] == s[i]);
                let k = choose|k: int| 0 <= k < ri.len() && ri[k] == init[i];
                assert(r[k] == s[i]);
            } else {
                assert(r[r.len() - 1] == s[i]);
            }
        }
    }
}

/// Ordering by preference neither adds nor drops a variant.
pub proof fn lemma_prioritized_is_permutation(site: Site, s: Seq<VideoType>)
    ensures
        prioritized(site, s).to_multiset() == s.to_multiset(),
    decreases s.len(),
{
    broadcast use vstd::seq_lib::to_multiset_build;

    let r0 = ranked(site, s, 0);
    let r1 = ranked(site, s, 1);
    let r2 = ranked(site, s, 2);
    vstd::seq_lib::lemma_multiset_commutative(r0 + r1, r2);
    vstd::seq_lib::lemma_multiset_commutative(r0, r1);
    if s.len() == 0 {
        assert(prioritized(site, s) =~= s);
    } else {
        let init = s.drop_last();
        let v = s.last();
        let i0 = ranked(site, init, 0);
        let i1 = ranked(site, init, 1);
        let i2 = ranked(site, init, 2);
        lemma_prioritized_is_permutation(site, init);
        vstd::seq_lib::lemma_multiset_commutative(i0 + i1, i2);
        vstd::seq_lib::lemma_multiset_commutative(i0, i1);
        assert(s =~= init.push(v));
        assert(s.to_multiset() =~= init.to_multiset().insert(v));
        assert(prioritized(site, s).to_multiset() =~= prioritized(site, init).to_multiset().insert(
            v,
        ));
    }
}

/// In the order of preference no variant stands before one of lower rank.
pub proof fn lemma_prioritized_is_sorted(site: Site, s: Seq<VideoType>)
    ensures
        forall|i: int, j: int|
            0 <= i <= j < prioritized(site, s).len() ==> priority_rank(
                site,
                #[trigger] prioritized(site, s)[i],
            ) <= priority_rank(site, #[trigger] prioritized(site, s)[j]),
{
    lemma_ranked_members(site, s, 0);
    lemma_ranked_members(site, s, 1);
    lemma_ranked_members(site, s, 2);
    let p = prioritized(site, s);
    let r0 = ranked(site, s, 0);
    let r1 = ranked(site, s, 1);
    let r2 = ranked(site, s, 2);
    assert forall|i: int| 0 <= i < p.len() implies priority_rank(site, #[trigger] p[i]) == (if i
        < r0.len() {
        0nat
    } else if i < r0.len() + r1.len() {
        1nat
    } else {
        2nat
    }) by {
        if i < r0.len() {
            assert(p[i] == r0[i]);
        } else if i < r0.len() + r1.len() {
            assert(p[i] == r1[i - r0.len()]);
        } else {
            assert(p[i] == r2[i - r0.len() - r1.len()]);
        }
    }
}

/// With the first site, the German dub is tried first wherever it stands
/// among the variants given.
pub proof fn lemma_native_dub_first(s: Seq<VideoType>)
    requires
        s.contains(VideoType::Dub(Language::German)),
    ensures
        prioritized(Site::AniWorld, s).len() > 0,
        prioritized(Site::AniWorld, s)[0] == VideoType::Dub(Language::German),
{
    let site = Site::AniWorld;
    lemma_ranked_members(site, s, 0);
    let r0 = ranked(site, s, 0);
    let k = choose|k: int| 0 <= k < s.len() && s[k] == VideoType::Dub(Language::German);
    assert(priority_rank(site, s[k]) == 0);
    assert(r0.contains(s[k]));
    assert(priority_rank(site, r0[0]) == 0);
    assert(prioritized(site, s)[0] == r0[0]);
}

/// With the first site, every subtitled variant is tried before every dub in
/// a language other than German.
pub proof fn lemma_subtitles_before_other_dubs(s: Seq<VideoType>, i: int, j: int)
    requires
        0 <= i < prioritized(Site::AniWorld, s).len(),
        0 <= j < prioritized(Site::AniWorld, s).len(),
        prioritized(Site::AniWorld, s)[i] is Sub,
        prioritized(Site::AniWorld, s)[j] matches VideoType::Dub(language) && language
            != Language::German,
    ensures
        i < j,
{
    lemma_prioritized_is_sorted(Site::AniWorld, s);
    let p = prioritized(Site::AniWorld, s);
    assert(priority_rank(Site::AniWorld, p[i]) == 1);
    assert(priority_rank(Site::AniWorld, p[j]) == 2);
}

/// The second site keeps the order of the variants given.
pub proof fn lemma_second_site_keeps_order(s: Seq<VideoType>)
    ensures
        prioritized(Site::SerienStream, s) == s,
    decreases s.len(),
{
    let site = Site::SerienStream;
    if s.len() > 0 {
        lemma_second_site_keeps_order(s.drop_last());
        lemma_no_higher_rank(s.drop_last());
        assert(s.drop_last().push(s.last()) =~= s);
    }
    lemma_no_higher_rank(s);
    assert(prioritized(site, s) =~= s) by {
        if s.len() > 0 {
            assert(prioritized(site, s.drop_last()) =~= ranked(site, s.drop_last(), 0));
        }
    }
}

/// With the second site no variant has a rank above the lowest.
proof fn lemma_no_higher_rank(s: Seq<VideoType>)
    ensures
        ranked(Site::SerienStream, s, 1).len() == 0,
        ranked(Site::SerienStream, s, 2).len() == 0,
    decreases s.len(),
{
    if s.len() > 0 {
        lemma_no_higher_rank(s.drop_last());
    }
}

/// What a wildcard request accepts of `s` is all of `s`.
proof fn lemma_wildcard_accepts_all(s: Seq<VideoType>)
    ensures
        accepted(VideoType::Unspecified, s) == s,
    decreases s.len(),
{
    if s.len() > 0 {
        lemma_wildcard_accepts_all(s.drop_last());
        assert(s.drop_last().push(s.last()) =~= s);
    }
}

/// A wildcard request selects every variant that the site offers, in the
/// order of the site's preference.
pub proof fn lemma_wildcard_selects_all(site: Site)
    ensures
        selected_variants(site, VideoType::Unspecified) == supported_variants(site),
{
    lemma_wildcard_accepts_all(supported_variants(site));
}

/// What is accepted of `s` and one more variant.
proof fn lemma_accepted_push(requested: VideoType, s: Seq<VideoType>, v: VideoType)
    ensures
        accepted(requested, s.push(v)) == if accepts(requested, v) {
            accepted(requested, s).push(v)
        } else {
            accepted(requested, s)
        },
{
    assert(s.push(v).drop_last() =~= s);
}

/// A request for one variant selects that variant alone where the site
/// offers it, and nothing where it does not.
pub proof fn lemma_concrete_selection(site: Site, requested: VideoType)
    requires
        requested !is Unspecified,
    ensures
        selected_variants(site, requested) == if base_variant_seq().contains(requested) {
            seq![requested]
        } else {
            Seq::<VideoType>::empty()
        },
{
    lemma_supported_variants(site);
    let dg = VideoType::Dub(Language::German);
    let sg = VideoType::Sub(Language::German);
    let de = VideoType::Dub(Language::English);
    let se = VideoType::Sub(Language::English);
    let e = Seq::<VideoType>::empty();
    let base = base_variant_seq();
    let sel = selected_variants(site, requested);
    assert(base[0] == dg && base[1] == sg && base[2] == de && base[3] == se);
    match site {
        Site::AniWorld => {
            assert(supported_variants(site) =~= e.push(dg).push(sg).push(se).push(de));
            lemma_accepted_push(requested, e, dg);
            lemma_accepted_push(requested, e.push(dg), sg);
            lemma_accepted_push(requested, e.push(dg).push(sg), se);
            lemma_accepted_push(requested, e.push(dg).push(sg).push(se), de);
        },
        Site::SerienStream => {
            assert(supported_variants(site) =~= e.push(dg).push(sg).push(de).push(se));
            lemma_accepted_push(requested, e, dg);
            lemma_accepted_push(requested, e.push(dg), sg);
            lemma_accepted_push(requested, e.push(dg).push(sg), de);
            lemma_accepted_push(requested, e.push(dg).push(sg).push(de), se);
        },
    }
    if base.contains(requested) {
        assert(sel =~= seq![requested]);
    } else {
        assert(sel =~= e);
    }
}

} // verus!
