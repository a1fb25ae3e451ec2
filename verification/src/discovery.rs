//! What the pages of a series tell: the seasons of the series, and the
//! episodes of a season.
//!
//! The caller reads the labels off the page. Here they are turned into
//! numbers, put in ascending order and freed of repetitions.

use crate::text::{
    chars_of, eq_ignoring_ascii_case, option_text_view, same_ignoring_ascii_case, text_views,
    trim_in, trimmed, unsigned_number, unsigned_number_in,
};
use vstd::prelude::*;

verus! {

/// The number of an episode within its season, or the mark of an episode
/// that has none.
#[derive(Debug, Clone, Copy, PartialEq, Eq)]
pub enum EpisodeNumber {
    Number(u32),
    Special,
}

/// What is known of one episode and of the season it belongs to.
#[derive(Debug, Clone, PartialEq, Eq)]
pub struct EpisodeInfo {
    pub name: Option<String>,
    pub season_number: Option<u32>,
    pub episode_number: EpisodeNumber,
    pub max_episode_number_in_season: Option<u32>,
    /// The episode numbers of the season, ascending, each once.
    pub episodes: Vec<u32>,
}

/// An `EpisodeInfo` as mathematical values.
pub struct EpisodeInfoView {
    pub name: Option<Seq<char>>,
    pub season_number: Option<u32>,
    pub episode_number: EpisodeNumber,
    pub max_episode_number_in_season: Option<u32>,
    pub episodes: Seq<u32>,
}

impl View for EpisodeInfo {
    type V = EpisodeInfoView;

    open spec fn view(&self) -> EpisodeInfoView {
        EpisodeInfoView {
            name: option_text_view(self.name),
            season_number: self.season_number,
            episode_number: self.episode_number,
            max_episode_number_in_season: self.max_episode_number_in_season,
            episodes: self.episodes@,
        }
    }
}

/// The seasons of a series, ascending, each once. Season `0` is the movies.
#[derive(Debug, Clone, PartialEq, Eq)]
pub struct SeasonsInfo {
    pub seasons: Vec<u32>,
}

/// Each number is smaller than the next.
pub open spec fn is_ascending(s: Seq<u32>) -> bool {
    forall|i: int, j: int| 0 <= i < j < s.len() ==> s[i] < s[j]
}

/// `s` with `x` put in its place, unless `x` is there already. For an
/// ascending `s`.
pub open spec fn insert_ascending(s: Seq<u32>, x: u32) -> Seq<u32>
    decreases s.len(),
{
    if s.len() == 0 || s.last() < x {
        s.push(x)
    } else if s.last() == x {
        s
    } else {
        insert_ascending(s.drop_last(), x).push(s.last())
    }
}

/// The season that a label of the season list names: `Filme`, in any case,
/// names the movies; a number names itself. White space around the label
/// does not count.
pub open spec fn season_of_label(label: Seq<char>) -> Option<u32> {
    if same_ignoring_ascii_case(trimmed(label), "Filme"@) {
        Some(0)
    } else {
        unsigned_number(trimmed(label))
    }
}

/// The episode that a label of the episode list names.
pub open spec fn episode_of_label(label: Seq<char>) -> Option<u32> {
    unsigned_number(label)
}

/// The number that a label names, as a season or as an episode.
pub open spec fn number_of_label(seasons: bool, label: Seq<char>) -> Option<u32> {
    if seasons {
        season_of_label(label)
    } else {
        episode_of_label(label)
    }
}

/// The numbers that the first `n` labels name, ascending, each once. A label
/// that names no number is passed over.
pub open spec fn numbers_of_labels(seasons: bool, labels: Seq<Seq<char>>, n: nat) -> Seq<u32>
    decreases n,
{
    if n == 0 {
        Seq::<u32>::empty()
    } else {
        let rest = numbers_of_labels(seasons, labels, (n - 1) as nat);
        match number_of_label(seasons, labels[n - 1]) {
            Some(x) => insert_ascending(rest, x),
            None => rest,
        }
    }
}

/// The seasons that the labels of a season list name.
pub open spec fn seasons_of_labels(labels: Seq<Seq<char>>) -> Seq<u32> {
    numbers_of_labels(true, labels, labels.len())
}

/// The episodes that the labels of an episode list name.
pub open spec fn episodes_of_labels(labels: Seq<Seq<char>>) -> Seq<u32> {
    numbers_of_labels(false, labels, labels.len())
}

/// A text as a page shows it: without the white space around it, and absent
/// if nothing is left.
pub open spec fn title_of(raw: Option<Seq<char>>) -> Option<Seq<char>> {
    match raw {
        Some(t) => if trimmed(t).len() == 0 {
            None
        } else {
            Some(trimmed(t))
        },
        None => None,
    }
}

/// The greatest of ascending numbers.
pub open spec fn greatest(s: Seq<u32>) -> Option<u32> {
    if s.len() == 0 {
        None
    } else {
        Some(s.last())
    }
}

/// What an episode page tells of episode `episode` of season `season`.
pub open spec fn episode_info_of(
    season: u32,
    episode: u32,
    title: Option<Seq<char>>,
    labels: Seq<Seq<char>>,
) -> EpisodeInfoView {
    EpisodeInfoView {
        name: title_of(title),
        season_number: Some(season),
        episode_number: EpisodeNumber::Number(episode),
        max_episode_number_in_season: greatest(episodes_of_labels(labels)),
        episodes: episodes_of_labels(labels),
    }
}

/// Where `x` belongs in an ascending `s`: after the numbers below it.
pub proof fn lemma_insert_ascending(s: Seq<u32>, x: u32, p: int)
    requires
        is_ascending(s),
        0 <= p <= s.len(),
        p > 0 ==> s[p - 1] < x,
        p < s.len() ==> x <= s[p],
    ensures
        insert_ascending(s, x) == (if p < s.len() && s[p] == x {
            s
        } else {
            s.insert(p, x)
        }),
    decreases s.len() - p,
{
    if s.len() == 0 || s.last() < x {
        assert(p == s.len());
        assert(s.push(x) =~= s.insert(p, x));
    } else if s.last() == x {
        assert(p == s.len() - 1);
    } else {
        let init = s.drop_last();
        assert(p < s.len());
        lemma_insert_ascending(init, x, p);
        if p < init.len() && init[p] == x {
            assert(init.push(s.last()) =~= s);
        } else {
            assert(init.insert(p, x).push(s.last()) =~= s.insert(p, x));
        }
    }
}

/// Putting a number in its place keeps the order and adds that number alone.
pub proof fn lemma_insert_ascending_keeps_order(s: Seq<u32>, x: u32)
    requires
        is_ascending(s),
    ensures
        is_ascending(insert_ascending(s, x)),
        insert_ascending(s, x).contains(x),
        forall|y: u32| #[trigger] s.contains(y) ==> insert_ascending(s, x).contains(y),
        forall|y: u32| #[trigger] insert_ascending(s, x).contains(y) ==> s.contains(y) || y == x,
    decreases s.len(),
{
    let r = insert_ascending(s, x);
    if s.len() == 0 || s.last() < x {
        assert forall|i: int, j: int| 0 <= i < j < r.len() implies r[i] < r[j] by {
            if j < s.len() {
                assert(r[i] == s[i] && r[j] == s[j]);
            } else {
                assert(r[i] == s[i]);
                assert(s.len() > 0);
                assert(s[i] <= s[s.len() - 1]);
            }
        }
        assert(r[s.len() as int] == x);
        assert forall|y: u32| #[trigger] s.contains(y) implies r.contains(y) by {
            let k = choose|k: int| 0 <= k < s.len() && s[k] == y;
            assert(r[k] == y);
        }
        assert forall|y: u32| #[trigger] r.contains(y) implies s.contains(y) || y == x by {
            let k = choose|k: int| 0 <= k < r.len() && r[k] == y;
            if k < s.len() {
                assert(s[k] == y);
            }
        }
    } else if s.last() == x {
        assert(s[s.len() - 1] == x);
    } else {
        let init = s.drop_last();
        let last = s.last();
        assert forall|i: int, j: int| 0 <= i < j < init.len() implies init[i] < init[j] by {
            assert(init[i] == s[i] && init[j] == s[j]);
        }
        lemma_insert_ascending_keeps_order(init, x);
        let ri = insert_ascending(init, x);
        assert(r == ri.push(last));
        assert forall|i: int, j: int| 0 <= i < j < r.len() implies r[i] < r[j] by {
            if j < ri.len() {
                assert(r[i] == ri[i] && r[j] == ri[j]);
            } else {
                assert(r[i] == ri[i]);
                assert(ri.contains(ri[i]));
                if init.contains(ri[i]) {
                    let k = choose|k: int| 0 <= k < init.len() && init[k] == ri[i];
                    assert(s[k] < s[s.len() - 1]);
                }
            }
        }
        assert(r.contains(x)) by {
            let m = choose|m: int| 0 <= m < ri.len() && ri[m] == x;
            assert(r[m] == x);
        }
        assert forall|y: u32| #[trigger] s.contains(y) implies r.contains(y) by {
            let k = choose|k: int| 0 <= k < s.len() && s[k] == y;
            if k < init.len() {
                assert(init[k] == y);
                assert(init.contains(y));
                assert(ri.contains(y));
                let m = choose|m: int| 0 <= m < ri.len() && ri[m] == y;
                assert(r[m] == y);
            } else {
                assert(r[r.len() - 1] == y);
            }
        }
        assert forall|y: u32| #[trigger] r.contains(y) implies s.contains(y) || y == x by {
            let k = choose|k: int| 0 <= k < r.len() && r[k] == y;
            if k < ri.len() {
                assert(ri[k] == y);
                assert(ri.contains(y));
                if init.contains(y) {
                    let m = choose|m: int| 0 <= m < init.len() && init[m] == y;
                    assert(s[m] == y);
                }
            } else {
                assert(s[s.len() - 1] == y);
            }
        }
    }
}

/// Some label among the first `n` names the number `y`.
pub open spec fn is_named_by(seasons: bool, labels: Seq<Seq<char>>, n: nat, y: u32) -> bool {
    exists|i: int| 0 <= i < n && number_of_label(seasons, #[trigger] labels[i]) == Some(y)
}

/// The numbers read off labels are ascending, each occurs once, and they are
/// exactly the numbers that some label names.
pub proof fn lemma_numbers_of_labels(seasons: bool, labels: Seq<Seq<char>>, n: nat)
    requires
        n <= labels.len(),
    ensures
        is_ascending(numbers_of_labels(seasons, labels, n)),
        forall|y: u32|
            #[trigger] numbers_of_labels(seasons, labels, n).contains(y) <==> is_named_by(
                seasons,
                labels,
                n,
                y,
            ),
    decreases n,
{
    let r = numbers_of_labels(seasons, labels, n);
    if n > 0 {
        let m = (n - 1) as nat;
        let rest = numbers_of_labels(seasons, labels, m);
        lemma_numbers_of_labels(seasons, labels, m);
        let read = number_of_label(seasons, labels[n - 1]);
        if let Some(x) = read {
            lemma_insert_ascending_keeps_order(rest, x);
        }
        assert forall|y: u32| #[trigger] r.contains(y) <==> is_named_by(seasons, labels, n, y) by {
            if r.contains(y) {
                if read == Some(y) {
                } else {
                    assert(rest.contains(y));
                    assert(is_named_by(seasons, labels, m, y));
                    let i = choose|i: int|
                        0 <= i < m && number_of_label(seasons, #[trigger] labels[i]) == Some(y);
                    assert(0 <= i < n && number_of_label(seasons, labels[i]) == Some(y));
                }
            }
            if is_named_by(seasons, labels, n, y) {
                let i = choose|i: int|
                    0 <= i < n && number_of_label(seasons, #[trigger] labels[i]) == Some(y);
                if i < m {
                    assert(is_named_by(seasons, labels, m, y));
                    assert(rest.contains(y));
                } else {
                    assert(read == Some(y));
                }
            }
        }
    } else {
        assert forall|y: u32| #[trigger] r.contains(y) <==> is_named_by(seasons, labels, n, y) by {}
    }
}

/// Puts `x` in its place in the ascending `v`, unless it is there already.
fn insert_number(v: &mut Vec<u32>, x: u32)
    requires
        is_ascending(old(v)@),
    ensures
        final(v)@ == insert_ascending(old(v)@, x),
        is_ascending(final(v)@),
{
    let mut p: usize = v.len();
    while p > 0 && v[p - 1] >= x
        invariant
            p <= v.len(),
            v@ == old(v)@,
            p < v.len() ==> x <= v[p as int],
        decreases p,
    {
        p -= 1;
    }
    proof {
        lemma_insert_ascending(v@, x, p as int);
        lemma_insert_ascending_keeps_order(v@, x);
    }
    if p < v.len() && v[p] == x {
        return ;
    }
    v.insert(p, x);
}

/// Reads a label of the season list.
pub fn read_season_label(label: &str) -> (r: Option<u32>)
    ensures
        r == season_of_label(label@),
{
    let chars = chars_of(label);
    let (a, b) = trim_in(&chars, 0, chars.len());
    assert(chars@.subrange(0, chars.len() as int) =~= chars@);
    let mut part: Vec<char> = Vec::new();
    let mut i: usize = a;
    while i < b
        invariant
            a <= i <= b <= chars.len(),
            part@ == chars@.subrange(a as int, i as int),
        decreases b - i,
    {
        part.push(chars[i]);
        assert(part@ =~= chars@.subrange(a as int, i + 1));
        i += 1;
    }
    let movies = chars_of("Filme");
    if eq_ignoring_ascii_case(&part, &movies) {
        Some(0)
    } else {
        unsigned_number_in(&chars, a, b)
    }
}

/// Reads a label of the episode list.
pub fn read_episode_label(label: &str) -> (r: Option<u32>)
    ensures
        r == episode_of_label(label@),
{
    let chars = chars_of(label);
    assert(chars@.subrange(0, chars.len() as int) =~= chars@);
    unsigned_number_in(&chars, 0, chars.len())
}

/// The numbers that labels name, ascending, each once.
fn read_labels(seasons: bool, labels: &Vec<String>) -> (r: Vec<u32>)
    ensures
        r@ == numbers_of_labels(seasons, text_views(labels@), labels@.len()),
        is_ascending(r@),
{
    let ghost views = text_views(labels@);
    let mut r: Vec<u32> = Vec::new();
    let mut i: usize = 0;
    while i < labels.len()
        invariant
            i <= labels.len(),
            views == text_views(labels@),
            r@ == numbers_of_labels(seasons, views, i as nat),
            is_ascending(r@),
        decreases labels.len() - i,
    {
        assert(views[i as int] == labels@[i as int]@);
        let number = if seasons {
            read_season_label(labels[i].as_str())
        } else {
            read_episode_label(labels[i].as_str())
        };
        match number {
            Some(x) => {
                insert_number(&mut r, x);
            },
            None => {},
        }
        i += 1;
    }
    r
}

/// `text` without the white space around it.
pub fn trim_text(text: &str) -> (r: String)
    ensures
        r@ == trimmed(text@),
{
    let chars = chars_of(text);
    assert(chars@.subrange(0, chars.len() as int) =~= chars@);
    let (a, b) = trim_in(&chars, 0, chars.len());
    text.substring_char(a, b).to_owned()
}

/// A text as a page shows it: without the white space around it, and absent
/// if nothing is left.
pub fn shown_text(raw: &Option<String>) -> (r: Option<String>)
    ensures
        option_text_view(r) == title_of(option_text_view(*raw)),
{
    match raw {
        Some(text) => {
            let shown = trim_text(text.as_str());
            if shown.as_str().unicode_len() == 0 {
                None
            } else {
                Some(shown)
            }
        },
        None => None,
    }
}

impl SeasonsInfo {
    /// The seasons that the labels of a season list name, or `None` if they
    /// name none.
    pub fn from_labels(labels: &Vec<String>) -> (r: Option<SeasonsInfo>)
        ensures
            match r {
                Some(info) => info.seasons@ == seasons_of_labels(text_views(labels@))
                    && info.seasons@.len() > 0,
                None => seasons_of_labels(text_views(labels@)).len() == 0,
            },
    {
        let seasons = read_labels(true, labels);
        assert(text_views(labels@).len() == labels@.len());
        if seasons.len() == 0 {
            None
        } else {
            Some(SeasonsInfo { seasons })
        }
    }
}

impl EpisodeInfo {
    /// What an episode page tells: the title it shows, if any, and the
    /// episodes of the season as its episode list names them.
    pub fn from_page(season: u32, episode: u32, title: &Option<String>, labels: &Vec<String>) -> (r:
        EpisodeInfo)
        ensures
            r@ == episode_info_of(
                season,
                episode,
                option_text_view(*title),
                text_views(labels@),
            ),
            is_ascending(r.episodes@),
    {
        let name = shown_text(title);
        let episodes = read_labels(false, labels);
        assert(text_views(labels@).len() == labels@.len());
        let max = if episodes.len() == 0 {
            None
        } else {
            Some(episodes[episodes.len() - 1])
        };
        EpisodeInfo {
            name,
            season_number: Some(season),
            episode_number: EpisodeNumber::Number(episode),
            max_episode_number_in_season: max,
            episodes,
        }
    }
}

} // verus!
