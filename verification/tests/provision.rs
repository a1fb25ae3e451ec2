use site_traversal::provision::{
    driver_fits, locate_extension, next_try, plan_install, text_contains, ExtensionLocation, InstallPlan,
    ReleaseAsset, ReleaseInfo, CHROME_VERSION, CONNECT_TRIES,
};

const FALLBACK_URL: &str =
    "https://github.com/uBlockOrigin/uBOL-home/releases/download/2026.201.1924/uBOLite_2026.201.1924.chromium.zip";

#[test]
fn driver_version_is_compared_by_its_major_part() {
    assert_eq!(CHROME_VERSION, 144);
    assert!(driver_fits("144.0.7559.96", 144));
    assert!(driver_fits(" 144 .0", 144));
    assert!(driver_fits("144", 144));
    assert!(!driver_fits("143.0.7559.96", 144));
    assert!(!driver_fits("1440.1", 144));
    assert!(!driver_fits("0144.1", 144));
    assert!(!driver_fits(".144", 144));
    assert!(!driver_fits("", 144));
    assert!(driver_fits("0.1", 0));
}

#[test]
fn the_driver_is_given_up_after_a_hundred_tries() {
    assert_eq!(CONNECT_TRIES, 100);
    assert_eq!(next_try(0), Some(1));
    assert_eq!(next_try(98), Some(99));
    assert_eq!(next_try(99), None);
    assert_eq!(next_try(255), None);
    let mut tries = 0;
    let mut asked = 1;
    while let Some(next) = next_try(tries) {
        tries = next;
        asked += 1;
    }
    assert_eq!(asked, 100);
}

#[test]
fn text_search() {
    assert!(text_contains("uBOLite_2026.chromium.zip", "chromium"));
    assert!(text_contains("chromium", "chromium"));
    assert!(text_contains("xchromiumchromium", "chromium"));
    assert!(text_contains("anything", ""));
    assert!(text_contains("", ""));
    assert!(!text_contains("uBOLite_2026.firefox.zip", "chromium"));
    assert!(!text_contains("chromiu", "chromium"));
    assert!(!text_contains("Chromium", "chromium"));
    assert!(!text_contains("", "chromium"));
}

fn asset(name: Option<&str>, url: Option<&str>) -> ReleaseAsset {
    ReleaseAsset { name: name.map(|s| s.to_string()), download_url: url.map(|s| s.to_string()) }
}

fn release(tag: Option<&str>, assets: Option<Vec<ReleaseAsset>>) -> Option<ReleaseInfo> {
    Some(ReleaseInfo { tag_name: tag.map(|s| s.to_string()), assets })
}

fn plan(version: &str, url: &str, up_to_date: bool) -> InstallPlan {
    InstallPlan { version: version.to_string(), download_url: url.to_string(), up_to_date }
}

#[test]
fn the_latest_release_is_installed_unless_it_is_there() {
    let latest = release(
        Some("2026.301"),
        Some(vec![
            asset(Some("uBOLite.firefox.xpi"), Some("https://h/firefox")),
            asset(None, Some("https://h/nameless")),
            asset(Some("uBOLite.chromium.zip"), Some("https://h/chromium")),
            asset(Some("uBOLite.chromium.mv3.zip"), Some("https://h/other")),
        ]),
    );
    assert_eq!(plan_install(&None, &latest), plan("2026.301", "https://h/chromium", false));
    assert_eq!(
        plan_install(&Some("2026.201".to_string()), &latest),
        plan("2026.301", "https://h/chromium", false)
    );
    assert_eq!(
        plan_install(&Some(" 2026.301\n".to_string()), &latest),
        plan("2026.301", "https://h/chromium", true)
    );
}

#[test]
fn the_fallback_is_installed_when_the_latest_release_is_not_known() {
    let unknown = [
        None,
        release(None, Some(vec![asset(Some("a.chromium.zip"), Some("https://h/c"))])),
        release(Some("1"), None),
        release(Some("1"), Some(vec![])),
        release(Some("1"), Some(vec![asset(Some("a.firefox.xpi"), Some("https://h/f"))])),
        release(
            Some("1"),
            Some(vec![asset(Some("a.chromium.zip"), None), asset(Some("b.chromium.zip"), Some("https://h/b"))]),
        ),
    ];
    for latest in unknown {
        assert_eq!(plan_install(&None, &latest), plan("fallback", FALLBACK_URL, false));
        assert_eq!(
            plan_install(&Some("fallback".to_string()), &latest),
            plan("fallback", FALLBACK_URL, false)
        );
    }
    let named_fallback = release(Some("fallback"), Some(vec![asset(Some("chromium"), Some("https://h/c"))]));
    assert_eq!(
        plan_install(&Some("fallback".to_string()), &named_fallback),
        plan("fallback", "https://h/c", false)
    );
}

#[test]
fn the_extension_lies_in_a_lone_directory_or_in_the_root() {
    assert_eq!(locate_extension(&vec![]), None);
    assert_eq!(locate_extension(&vec![true]), Some(ExtensionLocation::Entry(0)));
    assert_eq!(locate_extension(&vec![false]), Some(ExtensionLocation::Root));
    assert_eq!(locate_extension(&vec![true, true]), Some(ExtensionLocation::Root));
    assert_eq!(locate_extension(&vec![true, false, false]), Some(ExtensionLocation::Root));
}
