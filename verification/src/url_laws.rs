//! What the URL grammar accepts, stated without reference to how it is read:
//! a text is accepted exactly when it is a spelling of the canonical URL of
//! some reference, and then it is read as that reference.

use crate::text::{
    all_digits, decimal_digits, fold_code, is_digit, lemma_decimal_digits,
    lemma_positive_decimal_is_canonical, positive_number, spells_keyword, starts_with_keyword,
};
use crate::url::{
    is_slug, item_number, item_segment, lemma_segment_len, parse_path, parse_season_path,
    parse_url_text, scheme_len, season_number, season_path, season_segment, segment_len, site_at,
    site_path, split_site, url_text, without_trailing_slash, www_len, ParseError, ParsedUrlSeason,
    Site, UrlParts,
};
use vstd::prelude::*;

verus! {

/// The scheme of a URL with its separator.
pub open spec fn scheme_text(secure: bool) -> Seq<char> {
    if secure {
        "https://"@
    } else {
        "http://"@
    }
}

/// The optional first label of the host.
pub open spec fn www_text(www: bool) -> Seq<char> {
    if www {
        "www."@
    } else {
        Seq::<char>::empty()
    }
}

/// Everything that precedes the slug: scheme, optional `www.`, the site's
/// host and fixed path, and a slash.
pub open spec fn url_head(secure: bool, www: bool, site: Site) -> Seq<char> {
    scheme_text(secure) + (www_text(www) + (site_path(site) + seq!['/']))
}

/// A reference that a URL can name: the slug is well formed, and an episode
/// number, where there is one, is positive.
pub open spec fn valid_parts(parts: UrlParts) -> bool {
    &&& is_slug(parts.name)
    &&& parts.season matches Some(s) ==> (s.episode matches Some(e) ==> e >= 1)
}

/// `h` is a spelling of a URL head: its keywords in any case. The one-letter
/// host of the second site is an ASCII letter.
pub open spec fn spells_head(h: Seq<char>, secure: bool, www: bool, site: Site) -> bool {
    &&& spells_keyword(h, url_head(secure, www, site))
    &&& site == Site::SerienStream ==> h[(scheme_text(secure).len() + www_text(www).len()) as int]
        != '\u{17f}'
}

/// `s` begins with a spelling of a URL head.
pub open spec fn starts_with_head(s: Seq<char>, secure: bool, www: bool, site: Site) -> bool {
    &&& url_head(secure, www, site).len() <= s.len()
    &&& spells_head(s.take(url_head(secure, www, site).len() as int), secure, www, site)
}

/// `s` is a spelling of the URL of `parts`, with the given scheme and with or
/// without `www.`: the keywords in any case, the slug and the numbers exactly
/// as in the canonical URL.
pub open spec fn spells_url(s: Seq<char>, secure: bool, www: bool, parts: UrlParts) -> bool {
    let head = url_head(secure, www, parts.site);
    let tail = season_path(parts.season);
    &&& s.len() == head.len() + parts.name.len() + tail.len()
    &&& spells_head(s.take(head.len() as int), secure, www, parts.site)
    &&& s.subrange(head.len() as int, (head.len() + parts.name.len()) as int) == parts.name
    &&& spells_keyword(s.skip((head.len() + parts.name.len()) as int), tail)
}

/// Every character of `x` is its own folded form.
pub open spec fn is_folded(x: Seq<char>) -> bool {
    forall|i: int| 0 <= i < x.len() ==> fold_code(#[trigger] x[i]) == x[i] as u32
}

/// Characters with the same code point are the same character.
pub proof fn lemma_same_code(a: char, b: char)
    requires
        a as u32 == b as u32,
    ensures
        a == b,
{
}

/// A character that folds to something other than a lower-case letter is
/// that very character.
pub proof fn lemma_fold_exact(c: char, k: char)
    requires
        fold_code(c) == k as u32,
        !('a' <= k && k <= 'z'),
    ensures
        c == k,
{
}

/// Spelling a keyword made of two parts is spelling one part after the other.
pub proof fn lemma_spells_split(s: Seq<char>, a: Seq<char>, b: Seq<char>)
    requires
        a.len() <= s.len(),
    ensures
        spells_keyword(s, a + b) <==> (spells_keyword(s.take(a.len() as int), a) && spells_keyword(
            s.skip(a.len() as int),
            b,
        )),
{
    let n = a.len() as int;
    let ab = a + b;
    let l = s.take(n);
    let r = s.skip(n);
    if spells_keyword(s, ab) {
        assert forall|i: int| 0 <= i < a.len() implies fold_code(#[trigger] l[i]) == a[i] as u32 by {
            assert(l[i] == s[i]);
            assert(ab[i] == a[i]);
        }
        assert forall|i: int| 0 <= i < b.len() implies fold_code(#[trigger] r[i]) == b[i] as u32 by {
            assert(r[i] == s[i + n]);
            assert(ab[i + n] == b[i]);
        }
    }
    if spells_keyword(l, a) && spells_keyword(r, b) {
        assert forall|i: int| 0 <= i < ab.len() implies fold_code(#[trigger] s[i]) == ab[i] as u32 by {
            if i < n {
                assert(l[i] == s[i]);
            } else {
                assert(r[i - n] == s[i]);
            }
        }
    }
}

/// A text that spells digits is those digits.
pub proof fn lemma_spelled_digits(s: Seq<char>, d: Seq<char>)
    requires
        all_digits(d),
    ensures
        spells_keyword(s, d) <==> s == d,
{
    if spells_keyword(s, d) {
        assert forall|i: int| 0 <= i < s.len() implies s[i] == d[i] by {
            assert(fold_code(s[i]) == d[i] as u32);
            lemma_fold_exact(s[i], d[i]);
        }
        assert(s =~= d);
    }
    if s == d {
        assert forall|i: int| 0 <= i < d.len() implies fold_code(#[trigger] s[i]) == d[i] as u32 by {
            assert(is_digit(d[i]));
        }
    }
}

/// In a text that spells `x`, the slashes stand where those of `x` stand.
pub proof fn lemma_spelled_slashes(s: Seq<char>, x: Seq<char>)
    requires
        spells_keyword(s, x),
    ensures
        forall|i: int| 0 <= i < s.len() ==> (#[trigger] s[i] == '/' <==> x[i] == '/'),
{
    assert forall|i: int| 0 <= i < s.len() implies (#[trigger] s[i] == '/' <==> x[i] == '/') by {
        assert(fold_code(s[i]) == x[i] as u32);
        if x[i] == '/' {
            lemma_fold_exact(s[i], x[i]);
        }
        if s[i] == '/' {
            lemma_same_code(x[i], '/');
        }
    }
}

/// The first segment of `s` ends at the first slash, and not before.
pub proof fn lemma_segment_len_is_first_slash(s: Seq<char>)
    ensures
        segment_len(s) <= s.len(),
        forall|i: int| 0 <= i < segment_len(s) ==> #[trigger] s[i] != '/',
        segment_len(s) < s.len() ==> s[segment_len(s) as int] == '/',
    decreases s.len(),
{
    if s.len() == 0 || s[0] == '/' {
    } else {
        let t = s.drop_first();
        lemma_segment_len_is_first_slash(t);
        assert forall|i: int| 0 <= i < segment_len(s) implies #[trigger] s[i] != '/' by {
            if i > 0 {
                assert(t[i - 1] == s[i]);
            }
        }
        if segment_len(s) < s.len() {
            assert(t[segment_len(t) as int] == s[segment_len(s) as int]);
        }
    }
}

/// The characters of the keywords that decide between alternatives.
proof fn lemma_keyword_facts()
    ensures
        "https://"@.len() == 8,
        "http://"@.len() == 7,
        "https://"@[4] == 's',
        "http://"@[4] == ':',
        "www."@.len() == 4,
        "www."@[0] == 'w',
        site_path(Site::AniWorld).len() == 24,
        site_path(Site::SerienStream).len() == 17,
        site_path(Site::AniWorld)[0] == 'a',
        site_path(Site::SerienStream)[0] == 's',
        "filme"@.len() == 5,
        "filme"@[0] == 'f',
        "staffel-"@.len() == 8,
        "staffel-"@[0] == 's',
        "film-"@.len() == 5,
        "episode-"@.len() == 8,
{
    reveal_strlit("https://");
    reveal_strlit("http://");
    reveal_strlit("www.");
    reveal_strlit("aniworld.to/anime/stream");
    reveal_strlit("s.to/serie/stream");
    reveal_strlit("filme");
    reveal_strlit("staffel-");
    reveal_strlit("film-");
    reveal_strlit("episode-");
}

/// The keywords that stand inside a path segment hold no slash.
proof fn lemma_segment_keywords_have_no_slash()
    ensures
        forall|i: int| 0 <= i < "filme"@.len() ==> #[trigger] "filme"@[i] != '/',
        forall|i: int| 0 <= i < "staffel-"@.len() ==> #[trigger] "staffel-"@[i] != '/',
        forall|i: int| 0 <= i < "film-"@.len() ==> #[trigger] "film-"@[i] != '/',
        forall|i: int| 0 <= i < "episode-"@.len() ==> #[trigger] "episode-"@[i] != '/',
{
    reveal_strlit("filme");
    reveal_strlit("staffel-");
    reveal_strlit("film-");
    reveal_strlit("episode-");
}

/// A text that starts with a spelling of a URL head is split into the
/// head's site and what follows the head.
pub proof fn lemma_split_site_of_spelling(s: Seq<char>, secure: bool, www: bool, site: Site)
    requires
        starts_with_head(s, secure, www, site),
    ensures
        split_site(s) == Some((site, s.skip(url_head(secure, www, site).len() as int))),
{
    lemma_keyword_facts();
    assert(s.take(url_head(secure, www, site).len() as int)[(scheme_text(secure).len() + www_text(
        www,
    ).len()) as int] == s[(scheme_text(secure).len() + www_text(www).len()) as int]);
    let scheme = scheme_text(secure);
    let w = www_text(www);
    let path = site_path(site) + seq!['/'];
    let head = url_head(secure, www, site);
    let sl = scheme.len() as int;
    let wl = w.len() as int;
    let h = s.take(head.len() as int);
    lemma_spells_split(h, scheme, w + path);
    assert(h.take(sl) =~= s.take(sl));
    assert(starts_with_keyword(s, scheme));
    if !secure {
        if starts_with_keyword(s, "https://"@) {
            assert(s.take(8)[4] == s.take(7)[4]);
            assert(false);
        }
    }
    assert(scheme_len(s) == Some(scheme.len()));
    let host = s.skip(sl);
    let h1 = h.skip(sl);
    assert(h1 =~= host.take(head.len() - sl));
    lemma_spells_split(h1, w, path);
    let h2 = h1.skip(wl);
    assert(fold_code(h2[0]) == path[0] as u32);
    assert(h2[0] == host[wl]);
    if www {
        assert(h1.take(wl) =~= host.take(wl));
    } else {
        if starts_with_keyword(host, "www."@) {
            assert(host.take(4)[0] == host[0]);
            assert(false);
        }
    }
    assert(www_len(host) == wl);
    let rest = host.skip(wl);
    assert(h2 =~= rest.take(path.len() as int));
    assert(rest[0] == s[sl + wl]);
    if site == Site::SerienStream {
        let other = site_path(Site::AniWorld) + seq!['/'];
        if starts_with_keyword(rest, other) {
            assert(rest.take(other.len() as int)[0] == rest[0]);
            assert(other[0] == 'a');
            assert(false);
        }
    }
    assert(site_at(rest) == Some(site));
    assert(rest.skip(site_path(site).len() as int + 1) =~= s.skip(head.len() as int));
}

/// A text that is split into a site and a rest starts with a spelling of a
/// URL head of that site, and the rest is what follows that head. The result
/// tells the scheme and whether `www.` is there.
pub proof fn lemma_split_site_is_spelling(s: Seq<char>) -> (w: (bool, bool))
    requires
        split_site(s) is Some,
    ensures
        ({
            let (site, rest) = split_site(s)->0;
            &&& starts_with_head(s, w.0, w.1, site)
            &&& rest == s.skip(url_head(w.0, w.1, site).len() as int)
        }),
{
    lemma_keyword_facts();
    let (site, rest) = split_site(s)->0;
    let secure = starts_with_keyword(s, "https://"@);
    let scheme = scheme_text(secure);
    let sl = scheme.len() as int;
    let host = s.skip(sl);
    let www = starts_with_keyword(host, "www."@);
    let w = www_text(www);
    let wl = w.len() as int;
    let after = host.skip(wl);
    let path = site_path(site) + seq!['/'];
    let head = url_head(secure, www, site);
    assert(site_at(after) == Some(site));
    assert(starts_with_keyword(after, path));
    let h = s.take(head.len() as int);
    let h1 = h.skip(sl);
    let h2 = h1.skip(wl);
    assert(h.take(sl) =~= s.take(sl));
    assert(h1.take(wl) =~= host.take(wl));
    assert(h2 =~= after.take(path.len() as int));
    assert(spells_keyword(h1.take(wl), w));
    lemma_spells_split(h1, w, path);
    lemma_spells_split(h, scheme, w + path);
    assert(rest =~= s.skip(head.len() as int));
    assert(after[0] == s[sl + wl]);
    assert(h[sl + wl] == s[sl + wl]);
    (secure, www)
}

/// A segment that spells the segment of a season is read as that season.
pub proof fn lemma_season_segment_read(seg: Seq<char>, season: u32)
    requires
        spells_keyword(seg, season_segment(season)),
    ensures
        season_number(seg) == Some(season),
{
    lemma_keyword_facts();
    if season != 0 {
        let digits = decimal_digits(season as nat);
        lemma_decimal_digits(season as nat);
        lemma_spells_split(seg, "staffel-"@, digits);
        lemma_spelled_digits(seg.skip(8), digits);
        if spells_keyword(seg, "filme"@) {
            assert(fold_code(seg[0]) == "filme"@[0] as u32);
            assert(seg.take(8)[0] == seg[0]);
            assert(false);
        }
    }
}

/// A segment that is read as a season spells the segment of that season.
pub proof fn lemma_season_segment_spelled(seg: Seq<char>)
    requires
        season_number(seg) is Some,
    ensures
        spells_keyword(seg, season_segment(season_number(seg)->0)),
{
    lemma_keyword_facts();
    if !spells_keyword(seg, "filme"@) {
        let digits = seg.skip(8);
        lemma_positive_decimal_is_canonical(digits);
        lemma_spelled_digits(digits, digits);
        lemma_spells_split(seg, "staffel-"@, digits);
    }
}

/// A segment that spells the segment of an episode is read as that episode.
pub proof fn lemma_item_segment_read(seg: Seq<char>, season: u32, episode: u32)
    requires
        episode >= 1,
        spells_keyword(seg, item_segment(season, episode)),
    ensures
        item_number(season == 0, seg) == Some(episode),
{
    lemma_keyword_facts();
    let digits = decimal_digits(episode as nat);
    lemma_decimal_digits(episode as nat);
    if season == 0 {
        lemma_spells_split(seg, "film-"@, digits);
        lemma_spelled_digits(seg.skip(5), digits);
    } else {
        lemma_spells_split(seg, "episode-"@, digits);
        lemma_spelled_digits(seg.skip(8), digits);
    }
}

/// A segment that is read as an episode spells the segment of that episode,
/// and the episode's number is positive.
pub proof fn lemma_item_segment_spelled(seg: Seq<char>, season: u32)
    requires
        item_number(season == 0, seg) is Some,
    ensures
        item_number(season == 0, seg)->0 >= 1,
        spells_keyword(seg, item_segment(season, item_number(season == 0, seg)->0)),
{
    lemma_keyword_facts();
    if season == 0 {
        let digits = seg.skip(5);
        lemma_positive_decimal_is_canonical(digits);
        lemma_spelled_digits(digits, digits);
        lemma_spells_split(seg, "film-"@, digits);
    } else {
        let digits = seg.skip(8);
        lemma_positive_decimal_is_canonical(digits);
        lemma_spelled_digits(digits, digits);
        lemma_spells_split(seg, "episode-"@, digits);
    }
}

/// The segment of a season holds no slash.
pub proof fn lemma_season_segment_has_no_slash(season: u32)
    ensures
        forall|i: int| 0 <= i < season_segment(season).len() ==> #[trigger] season_segment(season)[i] != '/',
{
    lemma_segment_keywords_have_no_slash();
    lemma_keyword_facts();
    lemma_decimal_digits(season as nat);
    let digits = decimal_digits(season as nat);
    assert forall|i: int| 0 <= i < season_segment(season).len() implies #[trigger] season_segment(
        season,
    )[i] != '/' by {
        if season != 0 && i >= 8 {
            assert(is_digit(digits[i - 8]));
        }
    }
}

/// The path that follows a season's slash: the season's segment and, for an
/// episode, a slash and the episode's segment.
pub open spec fn season_tail(season: ParsedUrlSeason) -> Seq<char> {
    match season.episode {
        None => season_segment(season.season),
        Some(e) => season_segment(season.season) + (seq!['/'] + item_segment(season.season, e)),
    }
}

/// A path that spells the segments of a season, or of one of its episodes,
/// is read as that season and episode.
pub proof fn lemma_season_path_read(t: Seq<char>, season: ParsedUrlSeason)
    requires
        season.episode matches Some(e) ==> e >= 1,
        spells_keyword(t, season_tail(season)),
    ensures
        parse_season_path(t) == Some(season),
{
    let seg = season_segment(season.season);
    let m = seg.len() as int;
    lemma_season_segment_has_no_slash(season.season);
    lemma_spelled_slashes(t, season_tail(season));
    assert forall|i: int| 0 <= i < m implies #[trigger] t[i] != '/' by {
        assert(season_tail(season)[i] == seg[i]);
    }
    match season.episode {
        None => {
            lemma_segment_len(t, m);
            assert(t.take(m) =~= t);
            lemma_season_segment_read(t.take(m), season.season);
        },
        Some(e) => {
            let item = item_segment(season.season, e);
            assert(season_tail(season)[m] == '/');
            lemma_segment_len(t, m);
            lemma_spells_split(t, seg, seq!['/'] + item);
            lemma_spells_split(t.skip(m), seq!['/'], item);
            assert(t.skip(m).skip(1) =~= t.skip(m + 1));
            lemma_season_segment_read(t.take(m), season.season);
            lemma_item_segment_read(t.skip(m + 1), season.season, e);
        },
    }
}

/// A path that is read as a season, or as one of its episodes, spells the
/// segments of that season and episode, and an episode's number is positive.
pub proof fn lemma_season_path_spelled(t: Seq<char>)
    requires
        parse_season_path(t) is Some,
    ensures
        parse_season_path(t)->0.episode matches Some(e) ==> e >= 1,
        spells_keyword(t, season_tail(parse_season_path(t)->0)),
{
    let season = parse_season_path(t)->0;
    let n = segment_len(t) as int;
    lemma_segment_len_is_first_slash(t);
    lemma_season_segment_spelled(t.take(n));
    let seg = season_segment(season.season);
    if n == t.len() {
        assert(t.take(n) =~= t);
    } else {
        let e = season.episode->0;
        let item = item_segment(season.season, e);
        lemma_item_segment_spelled(t.skip(n + 1), season.season);
        assert(t.skip(n).skip(1) =~= t.skip(n + 1));
        assert(t.skip(n).take(1)[0] == t[n]);
        assert(spells_keyword(t.skip(n).take(1), seq!['/']));
        lemma_spells_split(t.skip(n), seq!['/'], item);
        lemma_spells_split(t, seg, seq!['/'] + item);
    }
}

/// A path that holds a slug and then a spelling of a season path is read as
/// that series, season and episode.
pub proof fn lemma_path_read(rest: Seq<char>, parts: UrlParts)
    requires
        valid_parts(parts),
        parts.name.len() <= rest.len(),
        rest.take(parts.name.len() as int) == parts.name,
        spells_keyword(rest.skip(parts.name.len() as int), season_path(parts.season)),
    ensures
        parse_path(parts.site, rest) == Some(parts),
{
    let k = parts.name.len() as int;
    let after = rest.skip(k);
    assert forall|i: int| 0 <= i < k implies #[trigger] rest[i] != '/' by {
        assert(rest.take(k)[i] == rest[i]);
    }
    match parts.season {
        None => {
            lemma_segment_len(rest, k);
        },
        Some(season) => {
            let x = season_tail(season);
            assert(season_path(parts.season) =~= seq!['/'] + x);
            lemma_spells_split(after, seq!['/'], x);
            assert(after.take(1)[0] == rest[k]);
            lemma_fold_exact(rest[k], '/');
            lemma_segment_len(rest, k);
            assert(after.skip(1) =~= rest.skip(k + 1));
            lemma_season_path_read(rest.skip(k + 1), season);
        },
    }
}

/// A path that is read as a series, season and episode holds the slug and
/// then a spelling of the season path, and what is read is a valid reference.
pub proof fn lemma_path_spelled(site: Site, rest: Seq<char>)
    requires
        parse_path(site, rest) is Some,
    ensures
        ({
            let parts = parse_path(site, rest)->0;
            &&& valid_parts(parts)
            &&& parts.site == site
            &&& parts.name.len() <= rest.len()
            &&& rest.take(parts.name.len() as int) == parts.name
            &&& spells_keyword(rest.skip(parts.name.len() as int), season_path(parts.season))
        }),
{
    let parts = parse_path(site, rest)->0;
    let k = segment_len(rest) as int;
    lemma_segment_len_is_first_slash(rest);
    let after = rest.skip(k);
    if k == rest.len() {
    } else {
        let season = parts.season->0;
        let x = season_tail(season);
        lemma_season_path_spelled(rest.skip(k + 1));
        assert(after.skip(1) =~= rest.skip(k + 1));
        assert(after.take(1)[0] == rest[k]);
        assert(spells_keyword(after.take(1), seq!['/']));
        lemma_spells_split(after, seq!['/'], x);
        assert(season_path(parts.season) =~= seq!['/'] + x);
    }
}

/// Completeness of the grammar: every spelling of the URL of a valid
/// reference, with or without a slash at its end, is read as that reference.
pub proof fn lemma_spelling_is_accepted(text: Seq<char>, secure: bool, www: bool, parts: UrlParts)
    requires
        valid_parts(parts),
        spells_url(without_trailing_slash(text), secure, www, parts),
    ensures
        parse_url_text(text) == Ok::<UrlParts, ParseError>(parts),
{
    let s = without_trailing_slash(text);
    let h = url_head(secure, www, parts.site).len() as int;
    let k = parts.name.len() as int;
    lemma_split_site_of_spelling(s, secure, www, parts.site);
    let rest = s.skip(h);
    assert(rest.take(k) =~= s.subrange(h, h + k));
    assert(rest.skip(k) =~= s.skip(h + k));
    lemma_path_read(rest, parts);
}

/// Soundness of the grammar: a text that is read as a reference is a
/// spelling of the URL of that reference, up to a slash at its end, and the
/// reference is valid. The result tells the scheme and whether `www.` is there.
pub proof fn lemma_accepted_is_spelling(text: Seq<char>) -> (w: (bool, bool))
    requires
        parse_url_text(text) is Ok,
    ensures
        valid_parts(parse_url_text(text)->Ok_0),
        spells_url(without_trailing_slash(text), w.0, w.1, parse_url_text(text)->Ok_0),
{
    let s = without_trailing_slash(text);
    let parts = parse_url_text(text)->Ok_0;
    let w = lemma_split_site_is_spelling(s);
    let (site, rest) = split_site(s)->0;
    lemma_path_spelled(site, rest);
    let h = url_head(w.0, w.1, site).len() as int;
    let k = parts.name.len() as int;
    assert(rest.take(k) =~= s.subrange(h, h + k));
    assert(rest.skip(k) =~= s.skip(h + k));
    w
}

/// A slash added at the end of a text that has none there does not change
/// what the text is read as.
pub proof fn lemma_trailing_slash_ignored(text: Seq<char>)
    requires
        text.len() == 0 || text.last() != '/',
    ensures
        parse_url_text(text.push('/')) == parse_url_text(text),
{
    assert(text.push('/').drop_last() =~= text);
}

/// The keywords of the grammar are written in their folded form.
proof fn lemma_keywords_folded()
    ensures
        is_folded("https://"@),
        is_folded(site_path(Site::AniWorld)),
        is_folded(site_path(Site::SerienStream)),
        is_folded("filme"@),
        is_folded("staffel-"@),
        is_folded("film-"@),
        is_folded("episode-"@),
{
    reveal_strlit("https://");
    reveal_strlit("aniworld.to/anime/stream");
    reveal_strlit("s.to/serie/stream");
    reveal_strlit("filme");
    reveal_strlit("staffel-");
    reveal_strlit("film-");
    reveal_strlit("episode-");
}

/// Two folded texts, one after the other, are a folded text.
proof fn lemma_folded_concat(a: Seq<char>, b: Seq<char>)
    requires
        is_folded(a),
        is_folded(b),
    ensures
        is_folded(a + b),
{
    let ab = a + b;
    assert forall|i: int| 0 <= i < ab.len() implies fold_code(#[trigger] ab[i]) == ab[i] as u32 by {
        if i < a.len() {
            assert(ab[i] == a[i]);
        } else {
            assert(ab[i] == b[i - a.len()]);
        }
    }
}

/// Numerals are folded texts.
proof fn lemma_digits_folded(n: nat)
    ensures
        is_folded(decimal_digits(n)),
{
    lemma_decimal_digits(n);
    let d = decimal_digits(n);
    assert forall|i: int| 0 <= i < d.len() implies fold_code(#[trigger] d[i]) == d[i] as u32 by {
        assert(is_digit(d[i]));
    }
}

/// Canonical season paths are folded texts that do not end in a slash.
proof fn lemma_season_path_folded(season: Option<ParsedUrlSeason>)
    ensures
        is_folded(season_path(season)),
        season is Some ==> season_path(season).len() > 0 && season_path(season).last() != '/',
{
    lemma_keywords_folded();
    lemma_keyword_facts();
    let slash = seq!['/'];
    assert(is_folded(slash));
    if let Some(s) = season {
        lemma_digits_folded(s.season as nat);
        lemma_decimal_digits(s.season as nat);
        let digits = decimal_digits(s.season as nat);
        assert(is_digit(digits[digits.len() - 1]));
        lemma_folded_concat("staffel-"@, digits);
        let seg = season_segment(s.season);
        assert(seg.len() > 0 && seg.last() != '/') by {
            reveal_strlit("filme");
        }
        lemma_folded_concat(slash, seg);
        if let Some(e) = s.episode {
            lemma_digits_folded(e as nat);
            lemma_decimal_digits(e as nat);
            let item_digits = decimal_digits(e as nat);
            assert(is_digit(item_digits[item_digits.len() - 1]));
            lemma_folded_concat("film-"@, item_digits);
            lemma_folded_concat("episode-"@, item_digits);
            let item = item_segment(s.season, e);
            assert(item.last() == item_digits.last());
            lemma_folded_concat(slash, item);
            lemma_folded_concat(slash + seg, slash + item);
        }
    }
}

/// The canonical URL of a valid reference is a spelling of itself, and does
/// not end in a slash.
pub proof fn lemma_canonical_is_spelling(parts: UrlParts)
    requires
        valid_parts(parts),
    ensures
        spells_url(url_text(parts), true, false, parts),
        url_text(parts).len() > 0,
        url_text(parts).last() != '/',
{
    lemma_keywords_folded();
    lemma_keyword_facts();
    lemma_season_path_folded(parts.season);
    let s = url_text(parts);
    let head = url_head(true, false, parts.site);
    let tail = season_path(parts.season);
    let h = head.len() as int;
    let k = parts.name.len() as int;
    let slash = seq!['/'];
    assert(is_folded(slash));
    lemma_folded_concat(site_path(parts.site), slash);
    lemma_folded_concat("https://"@, site_path(parts.site) + slash);
    assert(head =~= "https://"@ + (site_path(parts.site) + slash));
    assert(s.take(h) =~= head);
    assert(head[8] == site_path(parts.site)[0]);
    assert(s.subrange(h, h + k) =~= parts.name);
    assert(s.skip(h + k) =~= tail);
    if parts.season is None {
        assert(s.last() == parts.name[k - 1]);
    } else {
        assert(s.last() == tail.last());
    }
}

/// Round trip: the canonical URL of a valid reference, with or without a
/// slash at its end, is read as that reference. This holds for the series
/// alone, for each season including the movies (season `0`), and for each
/// episode with a positive number.
pub proof fn lemma_round_trip(parts: UrlParts)
    requires
        valid_parts(parts),
    ensures
        parse_url_text(url_text(parts)) == Ok::<UrlParts, ParseError>(parts),
        parse_url_text(url_text(parts).push('/')) == Ok::<UrlParts, ParseError>(parts),
{
    lemma_canonical_is_spelling(parts);
    lemma_spelling_is_accepted(url_text(parts), true, false, parts);
    lemma_trailing_slash_ignored(url_text(parts));
}

/// A text that starts with no spelling of the address of a supported site
/// is rejected.
pub proof fn lemma_unrecognized_site_rejected(text: Seq<char>)
    requires
        forall|secure: bool, www: bool, site: Site|
            !#[trigger] starts_with_head(text, secure, www, site),
    ensures
        parse_url_text(text) == Err::<UrlParts, ParseError>(ParseError::UnrecognizedSite),
{
    let s = without_trailing_slash(text);
    if split_site(s) is Some {
        let w = lemma_split_site_is_spelling(s);
        let (site, rest) = split_site(s)->0;
        let head = url_head(w.0, w.1, site);
        assert(text.take(head.len() as int) =~= s.take(head.len() as int));
        assert(starts_with_head(text, w.0, w.1, site));
    }
}

/// A segment in which the season keyword is followed by something other
/// than the numeral of a positive 32-bit number names no season.
proof fn lemma_season_segment_not_numeric(keyword: Seq<char>, number: Seq<char>)
    requires
        spells_keyword(keyword, "staffel-"@),
        positive_number(number) is None,
    ensures
        season_number(keyword + number) is None,
{
    lemma_keyword_facts();
    let seg = keyword + number;
    assert(seg.take(8) =~= keyword);
    assert(seg.skip(8) =~= number);
    if spells_keyword(seg, "filme"@) {
        assert(fold_code(seg[0]) == "filme"@[0] as u32);
        assert(seg[0] == keyword[0]);
        assert(false);
    }
}

/// A segment in which the episode keyword is followed by something other
/// than the numeral of a positive 32-bit number names no episode.
proof fn lemma_item_segment_not_numeric(movies: bool, keyword: Seq<char>, number: Seq<char>)
    requires
        spells_keyword(
            keyword,
            if movies {
                "film-"@
            } else {
                "episode-"@
            },
        ),
        positive_number(number) is None,
    ensures
        item_number(movies, keyword + number) is None,
{
    let seg = keyword + number;
    let kl = keyword.len() as int;
    assert(seg.take(kl) =~= keyword);
    assert(seg.skip(kl) =~= number);
}

/// A path splits at its first slash: where `a` holds no slash, the first
/// segment of `a`, a slash and `b` is `a`.
proof fn lemma_first_segment(a: Seq<char>, b: Seq<char>)
    requires
        forall|i: int| 0 <= i < a.len() ==> #[trigger] a[i] != '/',
    ensures
        segment_len(a + seq!['/'] + b) == a.len(),
        (a + seq!['/'] + b).take(a.len() as int) == a,
        (a + seq!['/'] + b).skip(a.len() as int + 1) == b,
{
    let s = a + seq!['/'] + b;
    let k = a.len() as int;
    assert forall|i: int| 0 <= i < k implies #[trigger] s[i] != '/' by {
        assert(s[i] == a[i]);
    }
    assert(s[k] == '/');
    lemma_segment_len(s, k);
    assert(s.take(k) =~= a);
    assert(s.skip(k + 1) =~= b);
}

/// A path that is one segment without a slash has that segment's length.
proof fn lemma_only_segment(a: Seq<char>)
    requires
        forall|i: int| 0 <= i < a.len() ==> #[trigger] a[i] != '/',
    ensures
        segment_len(a) == a.len(),
{
    lemma_segment_len(a, a.len() as int);
}

/// A text made of a spelling of a URL head and of a path that does not end
/// in a slash is read as its path is read, with or without a slash at its end.
proof fn lemma_head_then_path(
    secure: bool,
    www: bool,
    site: Site,
    head: Seq<char>,
    path: Seq<char>,
)
    requires
        spells_head(head, secure, www, site),
        path.len() > 0,
        path.last() != '/',
    ensures
        split_site(without_trailing_slash(head + path)) == Some((site, path)),
        split_site(without_trailing_slash(head + path + seq!['/'])) == Some((site, path)),
{
    let text = head + path;
    let h = head.len() as int;
    assert(text.last() == path.last());
    assert((text + seq!['/']).drop_last() =~= text);
    assert(text.take(h) =~= head);
    assert(text.skip(h) =~= path);
    lemma_split_site_of_spelling(text, secure, www, site);
}

/// A path made of a slug, a slash and more is read as the slug and what the
/// rest is read as.
proof fn lemma_slug_then_season(site: Site, name: Seq<char>, tail: Seq<char>)
    requires
        is_slug(name),
    ensures
        parse_path(site, name + seq!['/'] + tail) == (match parse_season_path(tail) {
            None => None,
            Some(season) => Some(UrlParts { site, name, season: Some(season) }),
        }),
{
    lemma_first_segment(name, tail);
}

/// A path whose season segment is the season keyword followed by something
/// other than the numeral of a positive 32-bit number is read as nothing, and
/// does not end in a slash.
proof fn lemma_season_path_rejected(
    site: Site,
    name: Seq<char>,
    keyword: Seq<char>,
    number: Seq<char>,
    rest: Seq<char>,
)
    requires
        is_slug(name),
        spells_keyword(keyword, "staffel-"@),
        forall|i: int| 0 <= i < number.len() ==> #[trigger] number[i] != '/',
        rest.len() == 0 || (rest[0] == '/' && rest.last() != '/'),
        positive_number(number) is None,
    ensures
        parse_path(site, name + seq!['/'] + (keyword + number + rest)) is None,
        (name + seq!['/'] + (keyword + number + rest)).len() > 0,
        (name + seq!['/'] + (keyword + number + rest)).last() != '/',
{
    let seg = keyword + number;
    let tail = seg + rest;
    let path = name + seq!['/'] + tail;
    assert(seg.len() > 0 && keyword.len() == 8) by {
        lemma_keyword_facts();
    }
    assert forall|i: int| 0 <= i < seg.len() implies #[trigger] seg[i] != '/' by {
        lemma_spelled_slashes(keyword, "staffel-"@);
        lemma_segment_keywords_have_no_slash();
        if i < keyword.len() {
            assert(seg[i] == keyword[i]);
        } else {
            assert(seg[i] == number[i - keyword.len()]);
        }
    }
    assert(tail.last() != '/') by {
        if rest.len() > 0 {
            assert(tail.last() == rest.last());
        } else {
            assert(tail.last() == seg[seg.len() - 1]);
        }
    }
    assert(path.last() == tail.last());
    lemma_slug_then_season(site, name, tail);
    lemma_season_segment_not_numeric(keyword, number);
    assert(parse_season_path(tail) is None) by {
        if rest.len() == 0 {
            assert(tail =~= seg);
            lemma_only_segment(seg);
            assert(seg.take(seg.len() as int) =~= seg);
        } else {
            let after = rest.skip(1);
            assert(tail =~= seg + seq!['/'] + after);
            lemma_first_segment(seg, after);
        }
    }
}

/// A path whose episode segment is the episode keyword followed by something
/// other than the numeral of a positive 32-bit number is read as nothing, and
/// does not end in a slash.
proof fn lemma_episode_path_rejected(
    site: Site,
    name: Seq<char>,
    season: Seq<char>,
    n: u32,
    keyword: Seq<char>,
    number: Seq<char>,
)
    requires
        is_slug(name),
        spells_keyword(season, season_segment(n)),
        spells_keyword(
            keyword,
            if n == 0 {
                "film-"@
            } else {
                "episode-"@
            },
        ),
        number.len() == 0 || number.last() != '/',
        positive_number(number) is None,
    ensures
        parse_path(site, name + seq!['/'] + (season + seq!['/'] + (keyword + number))) is None,
        (name + seq!['/'] + (season + seq!['/'] + (keyword + number))).len() > 0,
        (name + seq!['/'] + (season + seq!['/'] + (keyword + number))).last() != '/',
{
    let item = keyword + number;
    let tail = season + seq!['/'] + item;
    let path = name + seq!['/'] + tail;
    let kw = if n == 0 {
        "film-"@
    } else {
        "episode-"@
    };
    assert(item.len() > 0 && item.last() != '/') by {
        lemma_keyword_facts();
        lemma_spelled_slashes(keyword, kw);
        lemma_segment_keywords_have_no_slash();
        if number.len() > 0 {
            assert(item.last() == number.last());
        } else {
            assert(item.last() == keyword[keyword.len() - 1]);
        }
    }
    assert(tail.last() == item.last());
    assert(path.last() == tail.last());
    lemma_slug_then_season(site, name, tail);
    assert forall|i: int| 0 <= i < season.len() implies #[trigger] season[i] != '/' by {
        lemma_spelled_slashes(season, season_segment(n));
        lemma_season_segment_has_no_slash(n);
    }
    lemma_first_segment(season, item);
    lemma_season_segment_read(season, n);
    lemma_item_segment_not_numeric(n == 0, keyword, number);
    assert(parse_season_path(tail) is None);
}

/// A text in which the season keyword is followed by something other than
/// the numeral of a positive 32-bit number is rejected, whatever path follows
/// that segment. Here `head` spells the head of a site's URL, `name` is a
/// slug, `keyword` spells `staffel-`, `number` holds no slash, and `rest` is
/// empty or a path that starts with a slash and does not end in one.
pub proof fn lemma_non_numeric_season_rejected(
    secure: bool,
    www: bool,
    site: Site,
    head: Seq<char>,
    name: Seq<char>,
    keyword: Seq<char>,
    number: Seq<char>,
    rest: Seq<char>,
)
    requires
        spells_head(head, secure, www, site),
        is_slug(name),
        spells_keyword(keyword, "staffel-"@),
        forall|i: int| 0 <= i < number.len() ==> #[trigger] number[i] != '/',
        rest.len() == 0 || (rest[0] == '/' && rest.last() != '/'),
        positive_number(number) is None,
    ensures
        parse_url_text(head + (name + seq!['/'] + (keyword + number + rest)))
            == Err::<UrlParts, ParseError>(ParseError::MalformedPath),
        parse_url_text(head + (name + seq!['/'] + (keyword + number + rest)) + seq!['/'])
            == Err::<UrlParts, ParseError>(ParseError::MalformedPath),
{
    let path = name + seq!['/'] + (keyword + number + rest);
    lemma_season_path_rejected(site, name, keyword, number, rest);
    lemma_head_then_path(secure, www, site, head, path);
}

/// A text in which the episode keyword is followed by something other than
/// the numeral of a positive 32-bit number is rejected, with or without a
/// slash at its end. Here `head` spells the head of a site's URL, `name` is a
/// slug, `season` spells the segment of season `n`, `keyword` spells the
/// episode keyword of that season, and `number` does not end in a slash.
pub proof fn lemma_non_numeric_episode_rejected(
    secure: bool,
    www: bool,
    site: Site,
    head: Seq<char>,
    name: Seq<char>,
    season: Seq<char>,
    n: u32,
    keyword: Seq<char>,
    number: Seq<char>,
)
    requires
        spells_head(head, secure, www, site),
        is_slug(name),
        spells_keyword(season, season_segment(n)),
        spells_keyword(
            keyword,
            if n == 0 {
                "film-"@
            } else {
                "episode-"@
            },
        ),
        number.len() == 0 || number.last() != '/',
        positive_number(number) is None,
    ensures
        parse_url_text(head + (name + seq!['/'] + (season + seq!['/'] + (keyword + number))))
            == Err::<UrlParts, ParseError>(ParseError::MalformedPath),
        parse_url_text(
            head + (name + seq!['/'] + (season + seq!['/'] + (keyword + number))) + seq!['/'],
        ) == Err::<UrlParts, ParseError>(ParseError::MalformedPath),
{
    let path = name + seq!['/'] + (season + seq!['/'] + (keyword + number));
    lemma_episode_path_rejected(site, name, season, n, keyword, number);
    lemma_head_then_path(secure, www, site, head, path);
}

} // verus!
