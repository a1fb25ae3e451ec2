//! The links of an episode page: which of them lead anywhere.
//!
//! A page gives each hosting platform a link target that may be relative or
//! missing. A target is resolved against the address of the page; a link
//! whose target is missing or cannot be resolved is left out.

use crate::text::{option_text_view, option_text_views};
use vstd::prelude::*;

verus! {

/// The absolute address that `target` denotes on the page at `base`, as the
/// URL standard resolves a reference against a base: `None` where `base` is
/// no absolute address or `target` cannot be resolved against it.
pub uninterp spec fn joined_url(base: Seq<char>, target: Seq<char>) -> Option<Seq<char>>;

/// Resolves `target` against `base` with `url::Url::parse` and
/// `url::Url::join`. Both are functions of their arguments alone; the
/// contract gives their combined result the name `joined_url`, with `None`
/// for an error of either, and claims nothing else of it.
#[verifier::external_body]
fn join_url(base: &str, target: &str) -> (r: Option<String>)
    ensures
        option_text_view(r) == joined_url(base@, target@),
{
    match ::url::Url::parse(base) {
        Ok(page) => match page.join(target) {
            Ok(joined) => Some(String::from(joined)),
            Err(_) => None,
        },
        Err(_) => None,
    }
}

/// A link that leads somewhere: its target as the page gives it, and the
/// absolute address that the target denotes.
#[derive(Debug, Clone, PartialEq, Eq)]
pub struct ResolvedLink {
    pub target: String,
    pub url: String,
}

/// Target and address of each link.
pub open spec fn link_views(links: Seq<ResolvedLink>) -> Seq<(Seq<char>, Seq<char>)> {
    Seq::new(links.len(), |i: int| (links[i].target@, links[i].url@))
}

/// The address of each target on the page at `page_url`. A link without a
/// target has no address.
pub open spec fn resolve_all(page_url: Seq<char>, targets: Seq<Option<Seq<char>>>) -> Seq<
    Option<Seq<char>>,
> {
    Seq::new(
        targets.len(),
        |i: int|
            match targets[i] {
                Some(target) => joined_url(page_url, target),
                None => None,
            },
    )
}

/// The links among the first `n` that have a target and an address, in the
/// order of the page, each as target and address. A link without an entry in
/// `resolved` has no address.
pub open spec fn usable(
    targets: Seq<Option<Seq<char>>>,
    resolved: Seq<Option<Seq<char>>>,
    n: nat,
) -> Seq<(Seq<char>, Seq<char>)>
    decreases n,
{
    if n == 0 {
        Seq::<(Seq<char>, Seq<char>)>::empty()
    } else {
        let rest = usable(targets, resolved, (n - 1) as nat);
        if n <= targets.len() && n <= resolved.len() && targets[n - 1] is Some && resolved[n
            - 1] is Some {
            rest.push((targets[n - 1]->0, resolved[n - 1]->0))
        } else {
            rest
        }
    }
}

/// The links of the page at `page_url` that lead somewhere, in the order of
/// the page, each as target and address.
pub open spec fn links_on_page(page_url: Seq<char>, targets: Seq<Option<Seq<char>>>) -> Seq<
    (Seq<char>, Seq<char>),
> {
    usable(targets, resolve_all(page_url, targets), targets.len())
}

/// Resolves the target of each link against the address of the page. A link
/// without a target gets no address.
pub fn resolve_links(page_url: &str, targets: &Vec<Option<String>>) -> (resolved: Vec<
    Option<String>,
>)
    ensures
        option_text_views(resolved@) == resolve_all(page_url@, option_text_views(targets@)),
{
    let ghost wanted = resolve_all(page_url@, option_text_views(targets@));
    let mut resolved: Vec<Option<String>> = Vec::new();
    let mut i: usize = 0;
    while i < targets.len()
        invariant
            i <= targets.len(),
            resolved.len() == i,
            wanted == resolve_all(page_url@, option_text_views(targets@)),
            forall|j: int| 0 <= j < i ==> option_text_view(#[trigger] resolved@[j]) == wanted[j],
        decreases targets.len() - i,
    {
        assert(option_text_views(targets@)[i as int] == option_text_view(targets@[i as int]));
        let address = match &targets[i] {
            Some(target) => join_url(page_url, target.as_str()),
            None => None,
        };
        resolved.push(address);
        i += 1;
    }
    assert(option_text_views(resolved@) =~= wanted);
    resolved
}

/// The links that lead somewhere, in the order of the page: those that have
/// a target and whose target was resolved to an address.
pub fn usable_links(targets: &Vec<Option<String>>, resolved: &Vec<Option<String>>) -> (links: Vec<
    ResolvedLink,
>)
    ensures
        link_views(links@) == usable(
            option_text_views(targets@),
            option_text_views(resolved@),
            targets@.len(),
        ),
{
    let ghost t = option_text_views(targets@);
    let ghost r = option_text_views(resolved@);
    let mut links: Vec<ResolvedLink> = Vec::new();
    let mut i: usize = 0;
    assert(link_views(links@) =~= usable(t, r, 0));
    while i < targets.len()
        invariant
            i <= targets.len(),
            t == option_text_views(targets@),
            r == option_text_views(resolved@),
            link_views(links@) == usable(t, r, i as nat),
        decreases targets.len() - i,
    {
        let ghost before = link_views(links@);
        assert(t[i as int] == option_text_view(targets@[i as int]));
        if i < resolved.len() {
            assert(r[i as int] == option_text_view(resolved@[i as int]));
            match (&targets[i], &resolved[i]) {
                (Some(target), Some(url)) => {
                    links.push(ResolvedLink { target: target.clone(), url: url.clone() });
                    assert(link_views(links@) =~= before.push((target@, url@)));
                },
                _ => {},
            }
        }
        i += 1;
    }
    links
}

/// The links of the page at `page_url` that lead somewhere, each with the
/// absolute address that its target denotes on that page.
pub fn discover_links(page_url: &str, targets: &Vec<Option<String>>) -> (links: Vec<ResolvedLink>)
    ensures
        link_views(links@) == links_on_page(page_url@, option_text_views(targets@)),
{
    let resolved = resolve_links(page_url, targets);
    usable_links(targets, &resolved)
}

} // verus!
