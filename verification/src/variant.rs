//! Language variants of an episode, the order in which a site prefers them,
//! and where each of them is found on an episode page.

use crate::url::Site;
use vstd::prelude::*;

verus! {

/// The language of a variant.
#[derive(Debug, Clone, Copy, PartialEq, Eq, Structural)]
pub enum Language {
    German,
    English,
    Japanese,
}

/// A language and format that an episode may be offered in, or the wish for
/// whichever the site prefers.
#[derive(Debug, Clone, Copy, PartialEq, Eq, Structural)]
pub enum VideoType {
    /// Spoken in the language.
    Dub(Language),
    /// Subtitled in the language.
    Sub(Language),
    /// Any variant that the site offers.
    Unspecified,
}

/// The variants that the sites offer, in the order in which a page lists them.
pub open spec fn base_variant_seq() -> Seq<VideoType> {
    seq![
        VideoType::Dub(Language::German),
        VideoType::Sub(Language::German),
        VideoType::Dub(Language::English),
        VideoType::Sub(Language::English),
    ]
}

/// How early a site tries a variant: lower ranks come first. The first site
/// puts the German dub first, then what is subtitled, then any other dub. The
/// second site gives every variant the same rank.
pub open spec fn priority_rank(site: Site, v: VideoType) -> nat {
    match site {
        Site::SerienStream => 0,
        Site::AniWorld => match v {
            VideoType::Dub(Language::German) => 0,
            VideoType::Dub(_) => 2,
            _ => 1,
        },
    }
}

/// The variants of `s` that have the rank `rank` with `site`, in their order.
pub open spec fn ranked(site: Site, s: Seq<VideoType>, rank: nat) -> Seq<VideoType>
    decreases s.len(),
{
    if s.len() == 0 {
        Seq::<VideoType>::empty()
    } else if priority_rank(site, s.last()) == rank {
        ranked(site, s.drop_last(), rank).push(s.last())
    } else {
        ranked(site, s.drop_last(), rank)
    }
}

/// The variants `s` in the order of the site's preference: by rank, and
/// within a rank in the order of `s`.
pub open spec fn prioritized(site: Site, s: Seq<VideoType>) -> Seq<VideoType> {
    ranked(site, s, 0) + ranked(site, s, 1) + ranked(site, s, 2)
}

/// The variants that a site offers, in the order of its preference.
pub open spec fn supported_variants(site: Site) -> Seq<VideoType> {
    prioritized(site, base_variant_seq())
}

/// Whether an offered variant satisfies a request: a wildcard request is
/// satisfied by anything, any other request by the same variant only.
pub open spec fn accepts(requested: VideoType, offered: VideoType) -> bool {
    requested is Unspecified || requested == offered
}

/// The variants of `s` that satisfy the request, in their order.
pub open spec fn accepted(requested: VideoType, s: Seq<VideoType>) -> Seq<VideoType>
    decreases s.len(),
{
    if s.len() == 0 {
        Seq::<VideoType>::empty()
    } else if accepts(requested, s.last()) {
        accepted(requested, s.drop_last()).push(s.last())
    } else {
        accepted(requested, s.drop_last())
    }
}

/// The variants to look for on a page, in the order to try them.
pub open spec fn selected_variants(site: Site, requested: VideoType) -> Seq<VideoType> {
    accepted(requested, supported_variants(site))
}

/// The selector that finds a variant's language switch on an episode page.
pub open spec fn selector_text(v: VideoType) -> Option<Seq<char>> {
    match v {
        VideoType::Dub(Language::German) => Some(
            "div.changeLanguageBox > img[title=\"Deutsch\"]"@,
        ),
        VideoType::Sub(Language::German) => Some(
            "div.changeLanguageBox > img[title*=\"Untertitel Deutsch\"], div.changeLanguageBox > img[title*=\"deutschen Untertitel\"]"@,
        ),
        VideoType::Dub(Language::English) => Some(
            "div.changeLanguageBox > img[title=\"Englisch\"]"@,
        ),
        VideoType::Sub(Language::English) => Some(
            "div.changeLanguageBox > img[title*=\"Untertitel Englisch\"], div.changeLanguageBox > img[title*=\"englischen Untertitel\"]"@,
        ),
        _ => None,
    }
}

/// How early `site` tries the variant `v`: lower ranks come first.
pub fn rank_of(site: Site, v: VideoType) -> (r: u8)
    ensures
        r == priority_rank(site, v),
{
    match site {
        Site::SerienStream => 0,
        Site::AniWorld => match v {
            VideoType::Dub(Language::German) => 0,
            VideoType::Dub(_) => 2,
            _ => 1,
        },
    }
}

/// The variants that the sites offer, in the order in which a page lists them.
pub fn base_variants() -> (r: Vec<VideoType>)
    ensures
        r@ == base_variant_seq(),
{
    let mut r: Vec<VideoType> = Vec::new();
    r.push(VideoType::Dub(Language::German));
    r.push(VideoType::Sub(Language::German));
    r.push(VideoType::Dub(Language::English));
    r.push(VideoType::Sub(Language::English));
    assert(r@ =~= base_variant_seq());
    r
}

/// The selector that finds the language switch of `v` on an episode page,
/// or `None` for a variant that the sites do not offer.
pub fn selector_of(v: VideoType) -> (r: Option<&'static str>)
    ensures
        match r {
            Some(s) => selector_text(v) == Some(s@),
            None => selector_text(v) is None,
        },
{
    match v {
        VideoType::Dub(Language::German) => Some("div.changeLanguageBox > img[title=\"Deutsch\"]"),
        VideoType::Sub(Language::German) => Some(
            "div.changeLanguageBox > img[title*=\"Untertitel Deutsch\"], div.changeLanguageBox > img[title*=\"deutschen Untertitel\"]",
        ),
        VideoType::Dub(Language::English) => Some(
            "div.changeLanguageBox > img[title=\"Englisch\"]",
        ),
        VideoType::Sub(Language::English) => Some(
            "div.changeLanguageBox > img[title*=\"Untertitel Englisch\"], div.changeLanguageBox > img[title*=\"englischen Untertitel\"]",
        ),
        _ => None,
    }
}

/// Appends to `out` the variants of `variants` that have the given rank.
fn push_ranked(out: &mut Vec<VideoType>, site: Site, variants: &Vec<VideoType>, rank: u8)
    ensures
        final(out)@ == old(out)@ + ranked(site, variants@, rank as nat),
{
    let mut i: usize = 0;
    assert(out@ =~= old(out)@ + ranked(site, variants@.take(0), rank as nat));
    while i < variants.len()
        invariant
            i <= variants.len(),
            out@ == old(out)@ + ranked(site, variants@.take(i as int), rank as nat),
        decreases variants.len() - i,
    {
        let v = variants[i];
        proof {
            assert(variants@.take(i + 1).drop_last() =~= variants@.take(i as int));
        }
        if rank_of(site, v) == rank {
            out.push(v);
        }
        assert(out@ =~= old(out)@ + ranked(site, variants@.take(i + 1), rank as nat));
        i += 1;
    }
    assert(variants@.take(variants.len() as int) =~= variants@);
}

/// Orders variants by the site's preference.
///
/// For the first site the German dub comes first, subtitled variants come
/// before any other dub, and variants of equal standing keep their order. For
/// the second site the order is unchanged.
pub fn prioritize(site: Site, variants: &Vec<VideoType>) -> (r: Vec<VideoType>)
    ensures
        r@ == prioritized(site, variants@),
{
    let mut out: Vec<VideoType> = Vec::new();
    push_ranked(&mut out, site, variants, 0);
    push_ranked(&mut out, site, variants, 1);
    push_ranked(&mut out, site, variants, 2);
    assert(out@ =~= prioritized(site, variants@));
    out
}

/// The variants to look for on an episode page of `site`, in the order to
/// try them, each with the selector of its language switch.
///
/// A wildcard request gives every variant that the site offers, in the order
/// of the site's preference. Any other request gives that variant alone, and
/// `None` if the site does not offer it.
pub fn get_language_selectors(site: &Site, video_type: &VideoType) -> (r: Option<
    Vec<(VideoType, &'static str)>,
>)
    ensures
        r is None <==> selected_variants(*site, *video_type).len() == 0,
        r matches Some(v) ==> {
            &&& v@.len() == selected_variants(*site, *video_type).len()
            &&& forall|i: int|
                0 <= i < v@.len() ==> (#[trigger] v@[i]).0 == selected_variants(
                    *site,
                    *video_type,
                )[i] && selector_text(v@[i].0) == Some(v@[i].1@)
        },
{
    let base = base_variants();
    let ordered = prioritize(*site, &base);
    let ghost all = supported_variants(*site);
    let mut out: Vec<(VideoType, &'static str)> = Vec::new();
    let mut i: usize = 0;
    proof {
        lemma_supported_variants(*site);
    }
    while i < ordered.len()
        invariant
            i <= ordered.len(),
            ordered@ == all,
            forall|j: int| 0 <= j < all.len() ==> selector_text(#[trigger] all[j]) is Some,
            out@.len() == accepted(*video_type, all.take(i as int)).len(),
            forall|j: int|
                0 <= j < out@.len() ==> (#[trigger] out@[j]).0 == accepted(
                    *video_type,
                    all.take(i as int),
                )[j] && selector_text(out@[j].0) == Some(out@[j].1@),
        decreases ordered.len() - i,
    {
        let v = ordered[i];
        proof {
            assert(all.take(i + 1).drop_last() =~= all.take(i as int));
        }
        let wanted = match video_type {
            VideoType::Unspecified => true,
            _ => *video_type == v,
        };
        if wanted {
            match selector_of(v) {
                Some(selector) => {
                    out.push((v, selector));
                },
                None => {
                    assert(selector_text(all[i as int]) is Some);
                },
            }
        }
        i += 1;
    }
    assert(all.take(all.len() as int) =~= all);
    if out.len() == 0 {
        None
    } else {
        Some(out)
    }
}

/// The variants of a rank among `s` and one more variant.
proof fn lemma_ranked_push(site: Site, s: Seq<VideoType>, v: VideoType, rank: nat)
    ensures
        ranked(site, s.push(v), rank) == if priority_rank(site, v) == rank {
            ranked(site, s, rank).push(v)
        } else {
            ranked(site, s, rank)
        },
{
    assert(s.push(v).drop_last() =~= s);
}

/// The base variants of a rank.
proof fn lemma_base_ranked(site: Site, rank: nat)
    ensures
        ranked(site, base_variant_seq(), rank) == match site {
            Site::SerienStream => if rank == 0 {
                base_variant_seq()
            } else {
                Seq::<VideoType>::empty()
            },
            Site::AniWorld => if rank == 0 {
                seq![VideoType::Dub(Language::German)]
            } else if rank == 1 {
                seq![VideoType::Sub(Language::German), VideoType::Sub(Language::English)]
            } else if rank == 2 {
                seq![VideoType::Dub(Language::English)]
            } else {
                Seq::<VideoType>::empty()
            },
        },
{
    let dg = VideoType::Dub(Language::German);
    let sg = VideoType::Sub(Language::German);
    let de = VideoType::Dub(Language::English);
    let se = VideoType::Sub(Language::English);
    let e = Seq::<VideoType>::empty();
    assert(base_variant_seq() =~= e.push(dg).push(sg).push(de).push(se));
    lemma_ranked_push(site, e, dg, rank);
    lemma_ranked_push(site, e.push(dg), sg, rank);
    lemma_ranked_push(site, e.push(dg).push(sg), de, rank);
    lemma_ranked_push(site, e.push(dg).push(sg).push(de), se, rank);
    let r = ranked(site, base_variant_seq(), rank);
    match site {
        Site::SerienStream => {
            if rank == 0 {
                assert(r =~= base_variant_seq());
            } else {
                assert(r =~= e);
            }
        },
        Site::AniWorld => {
            if rank == 0 {
                assert(r =~= seq![dg]);
            } else if rank == 1 {
                assert(r =~= seq![sg, se]);
            } else if rank == 2 {
                assert(r =~= seq![de]);
            } else {
                assert(r =~= e);
            }
        },
    }
}

/// The variants that each site offers, in the order of its preference. Each
/// of them has a selector.
pub proof fn lemma_supported_variants(site: Site)
    ensures
        supported_variants(Site::AniWorld) == seq![
            VideoType::Dub(Language::German),
            VideoType::Sub(Language::German),
            VideoType::Sub(Language::English),
            VideoType::Dub(Language::English),
        ],
        supported_variants(Site::SerienStream) == base_variant_seq(),
        forall|j: int|
            0 <= j < supported_variants(site).len() ==> selector_text(
                #[trigger] supported_variants(site)[j],
            ) is Some,
{
    lemma_base_ranked(Site::AniWorld, 0);
    lemma_base_ranked(Site::AniWorld, 1);
    lemma_base_ranked(Site::AniWorld, 2);
    lemma_base_ranked(Site::SerienStream, 0);
    lemma_base_ranked(Site::SerienStream, 1);
    lemma_base_ranked(Site::SerienStream, 2);
    assert(supported_variants(Site::AniWorld) =~= seq![
        VideoType::Dub(Language::German),
        VideoType::Sub(Language::German),
        VideoType::Sub(Language::English),
        VideoType::Dub(Language::English),
    ]);
    assert(supported_variants(Site::SerienStream) =~= base_variant_seq());
}

} // verus!
