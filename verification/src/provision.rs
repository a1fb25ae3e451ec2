//! Decisions in setting up the browser: whether a driver found on the
//! machine fits the browser, which release of the ad-blocking extension to
//! install and whether to install it at all, where the unpacked extension
//! lies, and when to give up on a driver that does not answer.

use crate::discovery::trim_text;
use crate::text::{chars_of, decimal_digits, option_text_view, push_decimal, trim_in, trimmed};
use vstd::prelude::*;

verus! {

/// The major version of the browser that is driven.
pub const CHROME_VERSION: u32 = 144;

/// How often the driver is asked before it is given up.
pub const CONNECT_TRIES: u8 = 100;

/// Length of the part of `s` before its first dot, or of all of `s`.
pub open spec fn before_dot(s: Seq<char>) -> nat
    decreases s.len(),
{
    if s.len() == 0 || s[0] == '.' {
        0
    } else {
        1 + before_dot(s.drop_first())
    }
}

/// The major version that a version text names: what stands before its
/// first dot, without the white space around it.
pub open spec fn major_version(version: Seq<char>) -> Seq<char> {
    trimmed(version.take(before_dot(version) as int))
}

proof fn lemma_before_dot(s: Seq<char>, k: int)
    requires
        0 <= k <= s.len(),
        forall|i: int| 0 <= i < k ==> #[trigger] s[i] != '.',
        k == s.len() || s[k] == '.',
    ensures
        before_dot(s) == k,
    decreases k,
{
    if k > 0 {
        lemma_before_dot(s.drop_first(), k - 1);
    }
}

/// Whether a driver of this version drives a browser of the major version
/// `major`.
pub fn driver_fits(driver_version: &str, major: u32) -> (r: bool)
    ensures
        r == (major_version(driver_version@) == decimal_digits(major as nat)),
{
    let chars = chars_of(driver_version);
    let mut dot: usize = 0;
    while dot < chars.len() && chars[dot] != '.'
        invariant
            dot <= chars.len(),
            forall|i: int| 0 <= i < dot ==> #[trigger] chars@[i] != '.',
        decreases chars.len() - dot,
    {
        dot += 1;
    }
    proof {
        lemma_before_dot(chars@, dot as int);
        assert(chars@.subrange(0, dot as int) =~= chars@.take(dot as int));
    }
    let (a, b) = trim_in(&chars, 0, dot);
    let mut wanted = String::new();
    push_decimal(&mut wanted, major);
    let digits = chars_of(wanted.as_str());
    assert(digits@ =~= decimal_digits(major as nat));
    let ghost part = chars@.subrange(a as int, b as int);
    assert(part == major_version(driver_version@));
    if b - a != digits.len() {
        return false;
    }
    let mut i: usize = 0;
    while i < digits.len()
        invariant
            a <= b <= chars.len(),
            b - a == digits.len(),
            i <= digits.len(),
            part == chars@.subrange(a as int, b as int),
            part == major_version(driver_version@),
            digits@ == decimal_digits(major as nat),
            forall|j: int| 0 <= j < i ==> chars@[a + j] == digits@[j],
        decreases digits.len() - i,
    {
        if chars[a + i] != digits[i] {
            assert(chars@.subrange(a as int, b as int)[i as int] != digits@[i as int]);
            return false;
        }
        i += 1;
    }
    assert(chars@.subrange(a as int, b as int) =~= digits@);
    true
}

/// After one more try that failed: the number of tries made, or `None` when
/// the driver is given up.
pub fn next_try(tries: u8) -> (r: Option<u8>)
    ensures
        r == (if tries + 1 >= CONNECT_TRIES {
            None
        } else {
            Some((tries + 1) as u8)
        }),
{
    if tries >= CONNECT_TRIES - 1 {
        None
    } else {
        Some(tries + 1)
    }
}

/// One file of a release.
#[derive(Debug, Clone, PartialEq, Eq)]
pub struct ReleaseAsset {
    pub name: Option<String>,
    pub download_url: Option<String>,
}

/// What is known of the latest release.
#[derive(Debug, Clone, PartialEq, Eq)]
pub struct ReleaseInfo {
    pub tag_name: Option<String>,
    pub assets: Option<Vec<ReleaseAsset>>,
}

/// `needle` occurs in `s`.
pub open spec fn contains_text(s: Seq<char>, needle: Seq<char>) -> bool {
    exists|i: int|
        0 <= i && i + needle.len() <= s.len() && #[trigger] s.subrange(i, i + needle.len())
            == needle
}

/// Whether `needle` occurs in `s`.
pub fn text_contains(s: &str, needle: &str) -> (r: bool)
    ensures
        r == contains_text(s@, needle@),
{
    let text = chars_of(s);
    let wanted = chars_of(needle);
    if wanted.len() > text.len() {
        return false;
    }
    let last = text.len() - wanted.len();
    let mut i: usize = 0;
    while i <= last
        invariant
            wanted.len() <= text.len(),
            last == text.len() - wanted.len(),
            i <= last + 1,
            text@ == s@,
            wanted@ == needle@,
            forall|j: int| 0 <= j < i ==> #[trigger] text@.subrange(j, j + wanted.len()) != wanted@,
        decreases last + 1 - i,
    {
        let mut k: usize = 0;
        while k < wanted.len() && text[i + k] == wanted[k]
            invariant
                i <= last,
                last == text.len() - wanted.len(),
                k <= wanted.len(),
                forall|j: int| 0 <= j < k ==> text@[i + j] == wanted@[j],
            decreases wanted.len() - k,
        {
            k += 1;
        }
        if k == wanted.len() {
            assert(text@.subrange(i as int, i + wanted.len()) =~= wanted@);
            return true;
        }
        assert(text@.subrange(i as int, i + wanted.len())[k as int] != wanted@[k as int]);
        i += 1;
    }
    false
}

/// The asset for the browser: the first whose name holds `chromium`.
pub open spec fn browser_asset(assets: Seq<ReleaseAsset>, n: nat) -> Option<ReleaseAsset>
    decreases assets.len() - n,
{
    if n >= assets.len() {
        None
    } else if assets[n as int].name matches Some(name) && contains_text(name@, "chromium"@) {
        Some(assets[n as int])
    } else {
        browser_asset(assets, n + 1)
    }
}

/// Version and address of the latest release, where the release names its
/// version and the asset for the browser has an address.
pub open spec fn latest_release(info: ReleaseInfo) -> Option<(Seq<char>, Seq<char>)> {
    match (info.tag_name, info.assets) {
        (Some(tag), Some(assets)) => match browser_asset(assets@, 0) {
            Some(asset) => match asset.download_url {
                Some(url) => Some((tag@, url@)),
                None => None,
            },
            None => None,
        },
        _ => None,
    }
}

/// The release to fall back on when the latest is not known.
pub open spec fn fallback_release() -> (Seq<char>, Seq<char>) {
    (
        "fallback"@,
        "https://github.com/uBlockOrigin/uBOL-home/releases/download/2026.201.1924/uBOLite_2026.201.1924.chromium.zip"@,
    )
}

/// What to install: the latest release if it is known, the fallback if not.
pub open spec fn release_to_install(info: Option<ReleaseInfo>) -> (Seq<char>, Seq<char>) {
    match info {
        Some(info) => match latest_release(info) {
            Some(release) => release,
            None => fallback_release(),
        },
        None => fallback_release(),
    }
}

/// Whether the version installed, as the version file tells it, is the one
/// to install. The fallback is never up to date, so that the latest release
/// is looked for again.
pub open spec fn is_up_to_date(installed: Option<Seq<char>>, version: Seq<char>) -> bool {
    installed matches Some(contents) && trimmed(contents) == version && version != "fallback"@
}

/// What is to be done about the extension.
#[derive(Debug, Clone, PartialEq, Eq)]
pub struct InstallPlan {
    /// The version to install.
    pub version: String,
    /// Where to get it.
    pub download_url: String,
    /// Whether that version is installed already.
    pub up_to_date: bool,
}

/// Whether the two texts are the same.
fn same_text(a: &str, b: &str) -> (r: bool)
    ensures
        r == (a@ == b@),
{
    let x = chars_of(a);
    let y = chars_of(b);
    if x.len() != y.len() {
        return false;
    }
    let mut i: usize = 0;
    while i < x.len()
        invariant
            x.len() == y.len(),
            i <= x.len(),
            x@ == a@,
            y@ == b@,
            forall|j: int| 0 <= j < i ==> x@[j] == y@[j],
        decreases x.len() - i,
    {
        if x[i] != y[i] {
            assert(a@[i as int] != b@[i as int]);
            return false;
        }
        i += 1;
    }
    assert(x@ =~= y@);
    true
}

/// Index of the asset for the browser.
fn find_browser_asset(assets: &Vec<ReleaseAsset>) -> (r: Option<usize>)
    ensures
        match r {
            Some(i) => i < assets.len() && browser_asset(assets@, 0) == Some(assets@[i as int]),
            None => browser_asset(assets@, 0) is None,
        },
{
    let mut i: usize = 0;
    while i < assets.len()
        invariant
            i <= assets.len(),
            browser_asset(assets@, i as nat) == browser_asset(assets@, 0),
        decreases assets.len() - i,
    {
        let fits = match &assets[i].name {
            Some(name) => text_contains(name.as_str(), "chromium"),
            None => false,
        };
        if fits {
            return Some(i);
        }
        i += 1;
    }
    None
}

/// Decides what to install and whether anything has to be installed, from
/// the contents of the version file, if there is one, and from what is known
/// of the latest release, if anything.
pub fn plan_install(installed: &Option<String>, latest: &Option<ReleaseInfo>) -> (plan: InstallPlan)
    ensures
        (plan.version@, plan.download_url@) == release_to_install(*latest),
        plan.up_to_date == is_up_to_date(option_text_view(*installed), plan.version@),
{
    let mut found: Option<(String, String)> = None;
    if let Some(info) = latest {
        if let (Some(tag), Some(assets)) = (&info.tag_name, &info.assets) {
            if let Some(i) = find_browser_asset(assets) {
                if let Some(url) = &assets[i].download_url {
                    found = Some((tag.clone(), url.clone()));
                }
            }
        }
    }
    let (version, download_url) = match found {
        Some(release) => release,
        None => (
            String::from_str("fallback"),
            String::from_str(
                "https://github.com/uBlockOrigin/uBOL-home/releases/download/2026.201.1924/uBOLite_2026.201.1924.chromium.zip",
            ),
        ),
    };
    let up_to_date = match installed {
        Some(contents) => {
            let current = trim_text(contents.as_str());
            same_text(current.as_str(), version.as_str()) && !same_text(
                version.as_str(),
                "fallback",
            )
        },
        None => false,
    };
    InstallPlan { version, download_url, up_to_date }
}

/// Where the extension lies in the directory it was unpacked to.
#[derive(Debug, Clone, Copy, PartialEq, Eq)]
pub enum ExtensionLocation {
    /// In the entry with this index, which is the only entry and a directory.
    Entry(usize),
    /// In the directory itself.
    Root,
}

/// Where the extension lies, given for each entry of the directory whether
/// it is a directory. An archive that holds one directory and nothing else
/// has the extension in that directory. `None` for an empty directory.
pub fn locate_extension(entries_are_directories: &Vec<bool>) -> (r: Option<ExtensionLocation>)
    ensures
        r == (if entries_are_directories@.len() == 0 {
            None
        } else if entries_are_directories@.len() == 1 && entries_are_directories@[0] {
            Some(ExtensionLocation::Entry(0))
        } else {
            Some(ExtensionLocation::Root)
        }),
{
    if entries_are_directories.len() == 0 {
        None
    } else if entries_are_directories.len() == 1 && entries_are_directories[0] {
        Some(ExtensionLocation::Entry(0))
    } else {
        Some(ExtensionLocation::Root)
    }
}

} // verus!
