use site_traversal::url::Site;
use site_traversal::variant::{
    base_variants, get_language_selectors, prioritize, rank_of, selector_of, Language, VideoType,
};

const DUB_DE: VideoType = VideoType::Dub(Language::German);
const SUB_DE: VideoType = VideoType::Sub(Language::German);
const DUB_EN: VideoType = VideoType::Dub(Language::English);
const SUB_EN: VideoType = VideoType::Sub(Language::English);

#[test]
fn base_order_is_the_order_of_the_page() {
    assert_eq!(base_variants(), vec![DUB_DE, SUB_DE, DUB_EN, SUB_EN]);
}

#[test]
fn first_site_puts_native_dub_first_and_other_dubs_last() {
    assert_eq!(
        prioritize(Site::AniWorld, &base_variants()),
        vec![DUB_DE, SUB_DE, SUB_EN, DUB_EN]
    );
}

#[test]
fn native_dub_is_first_whatever_the_order_given() {
    let orders = [
        vec![DUB_DE, SUB_DE, DUB_EN, SUB_EN],
        vec![SUB_EN, DUB_EN, SUB_DE, DUB_DE],
        vec![DUB_EN, DUB_DE, SUB_EN, SUB_DE],
        vec![SUB_DE, SUB_EN, DUB_DE, DUB_EN],
        vec![DUB_EN, SUB_EN, DUB_DE],
        vec![VideoType::Dub(Language::Japanese), DUB_DE],
    ];
    for order in orders {
        let sorted = prioritize(Site::AniWorld, &order);
        assert_eq!(sorted.len(), order.len());
        assert_eq!(sorted[0], DUB_DE);
        for (i, a) in sorted.iter().enumerate() {
            for (j, b) in sorted.iter().enumerate() {
                let a_is_sub = matches!(a, VideoType::Sub(_));
                let b_is_other_dub = matches!(b, VideoType::Dub(l) if *l != Language::German);
                if a_is_sub && b_is_other_dub {
                    assert!(i < j, "{sorted:?}");
                }
            }
        }
        for v in &order {
            assert!(sorted.contains(v));
        }
    }
}

#[test]
fn equal_rank_keeps_the_order_given() {
    assert_eq!(
        prioritize(Site::AniWorld, &vec![SUB_EN, DUB_EN, SUB_DE, VideoType::Dub(Language::Japanese)]),
        vec![SUB_EN, SUB_DE, DUB_EN, VideoType::Dub(Language::Japanese)]
    );
}

#[test]
fn second_site_keeps_the_order_given() {
    let order = vec![SUB_EN, DUB_EN, SUB_DE, DUB_DE];
    assert_eq!(prioritize(Site::SerienStream, &order), order);
    assert_eq!(prioritize(Site::SerienStream, &base_variants()), base_variants());
}

#[test]
fn ranks() {
    assert_eq!(rank_of(Site::AniWorld, DUB_DE), 0);
    assert_eq!(rank_of(Site::AniWorld, SUB_DE), 1);
    assert_eq!(rank_of(Site::AniWorld, SUB_EN), 1);
    assert_eq!(rank_of(Site::AniWorld, VideoType::Unspecified), 1);
    assert_eq!(rank_of(Site::AniWorld, DUB_EN), 2);
    assert_eq!(rank_of(Site::SerienStream, DUB_EN), 0);
}

#[test]
fn wildcard_selects_every_variant_in_site_order() {
    let first = get_language_selectors(&Site::AniWorld, &VideoType::Unspecified).unwrap();
    let variants: Vec<VideoType> = first.iter().map(|x| x.0).collect();
    assert_eq!(variants, vec![DUB_DE, SUB_DE, SUB_EN, DUB_EN]);
    assert_eq!(first[0].1, "div.changeLanguageBox > img[title=\"Deutsch\"]");
    assert_eq!(
        first[2].1,
        "div.changeLanguageBox > img[title*=\"Untertitel Englisch\"], div.changeLanguageBox > img[title*=\"englischen Untertitel\"]"
    );
    let second = get_language_selectors(&Site::SerienStream, &VideoType::Unspecified).unwrap();
    let variants: Vec<VideoType> = second.iter().map(|x| x.0).collect();
    assert_eq!(variants, vec![DUB_DE, SUB_DE, DUB_EN, SUB_EN]);
    for (variant, selector) in second {
        assert_eq!(selector_of(variant), Some(selector));
    }
}

#[test]
fn concrete_request_selects_that_variant_alone() {
    for site in [Site::AniWorld, Site::SerienStream] {
        for variant in [DUB_DE, SUB_DE, DUB_EN, SUB_EN] {
            let selected = get_language_selectors(&site, &variant).unwrap();
            assert_eq!(selected.len(), 1);
            assert_eq!(selected[0].0, variant);
            assert_eq!(Some(selected[0].1), selector_of(variant));
        }
    }
    assert_eq!(
        get_language_selectors(&Site::AniWorld, &SUB_DE).unwrap()[0].1,
        "div.changeLanguageBox > img[title*=\"Untertitel Deutsch\"], div.changeLanguageBox > img[title*=\"deutschen Untertitel\"]"
    );
    assert_eq!(
        get_language_selectors(&Site::AniWorld, &DUB_EN).unwrap()[0].1,
        "div.changeLanguageBox > img[title=\"Englisch\"]"
    );
}

#[test]
fn unsupported_variant_selects_nothing() {
    for site in [Site::AniWorld, Site::SerienStream] {
        assert_eq!(get_language_selectors(&site, &VideoType::Dub(Language::Japanese)), None);
        assert_eq!(get_language_selectors(&site, &VideoType::Sub(Language::Japanese)), None);
    }
    assert_eq!(selector_of(VideoType::Unspecified), None);
}
