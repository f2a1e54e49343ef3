//! The repertoire page of a Cinema City venue: its movies, their showings grouped by format
//! and language, and what the lookup of each movie can use.
use crate::cinema_city::{
    canonical_url_spec, CinemaCity, LABELLED_SPAN_SELECTOR, MOVIE_INFO_SELECTOR, MOVIE_LINK_SELECTOR,
    MOVIE_NAME_SELECTOR, PLAY_DETAILS_SELECTOR, PLAY_TIME_SELECTOR, PRESALE_HEADING_SELECTOR, REPERTOIRE_SELECTOR,
    SCREENING_ATTRIBUTE_SELECTOR,
};
use crate::common::{opt_view, string_views, MISSING_DATA_LABEL};
use crate::domain::{MovieLookupMetadata, MoviePlayDetails, MoviePlayTime, Repertoire};
use crate::helios::ElementView;
use crate::patterns::{regex_is_match, regex_matches, PLAY_LENGTH_PATTERN};
use crate::scrape::{
    document_matches, fragment_matches, name_views, normalized_text, normalized_text_spec, scraped_views,
    select_in_document, select_in_fragment, ScrapedElement,
};
use crate::showings::{details_view, details_views, metadata_view, repertoire_view, repertoire_views, time_view, TimeView};
use crate::text::{
    chars_of, contains_seq, contains_str, join, join_seq, push_all, push_str, replace, replace_seq, starts_with,
    starts_with_seq, string_of, to_uppercase, trim, trim_seq, unicode_uppercase, views_of,
};
use vstd::prelude::*;

verus! {

/// The text of the first element, whitespace normalised.
pub open spec fn first_text_spec(es: Seq<ElementView>) -> Option<Seq<char>> {
    if es.len() > 0 { Some(normalized_text_spec(es[0].1)) } else { None }
}

/// `value`, or the missing-data label.
pub open spec fn or_missing(value: Option<Seq<char>>) -> Seq<char> {
    match value {
        Some(v) => v,
        None => MISSING_DATA_LABEL@,
    }
}

/// The first attribute of an element (the one asked for first) contains one of `keys`.
pub open spec fn label_has_any(e: ElementView, keys: Seq<Seq<char>>) -> bool {
    e.2.len() > 0 && e.2[0] is Some && exists|k: int| 0 <= k < keys.len() && contains_seq(e.2[0]->0, #[trigger] keys[k])
}

/// The text of the first element whose label contains one of `keys`.
pub open spec fn first_labelled(es: Seq<ElementView>, keys: Seq<Seq<char>>) -> Option<Seq<char>>
    decreases es.len(),
{
    if es.len() == 0 {
        None
    } else if label_has_any(es[0], keys) {
        Some(normalized_text_spec(es[0].1))
    } else {
        first_labelled(es.drop_first(), keys)
    }
}

/// The texts of the elements whose label contains `key`, in order.
pub open spec fn all_labelled(es: Seq<ElementView>, key: Seq<char>) -> Seq<Seq<char>>
    decreases es.len(),
{
    if es.len() == 0 {
        Seq::empty()
    } else {
        let pre = all_labelled(es.drop_last(), key);
        if label_has_any(es.last(), seq![key]) { pre.push(normalized_text_spec(es.last().1)) } else { pre }
    }
}

fn first_text(es: &Vec<ScrapedElement>) -> (r: Option<String>)
    ensures
        opt_view(r) == first_text_spec(scraped_views(es@)),
{
    if es.len() > 0 {
        assert(scraped_views(es@)[0] == es@[0].view_tuple());
        Some(normalized_text(es[0].text.as_str()))
    } else {
        None
    }
}

fn label_has_any_exec(e: &ScrapedElement, keys: &Vec<Vec<char>>) -> (r: bool)
    ensures
        r == label_has_any(e.view_tuple(), views_of(keys@)),
{
    if e.attributes.len() == 0 {
        return false;
    }
    match &e.attributes[0] {
        None => false,
        Some(label) => {
            assert(e.view_tuple().2[0] == Some(label@));
            let l = chars_of(label.as_str());
            let mut k: usize = 0;
            while k < keys.len()
                invariant
                    k <= keys@.len(),
                    l@ == label@,
                    e.view_tuple().2.len() > 0,
                    e.view_tuple().2[0] == Some(label@),
                    forall|j: int| 0 <= j < k ==> !contains_seq(l@, #[trigger] views_of(keys@)[j]),
                decreases keys.len() - k,
            {
                if crate::text::contains(l.as_slice(), keys[k].as_slice()) {
                    assert(contains_seq(l@, views_of(keys@)[k as int]));
                    assert(0 <= k < views_of(keys@).len());
                    assert(label_has_any(e.view_tuple(), views_of(keys@)));
                    return true;
                }
                k = k + 1;
            }
            false
        },
    }
}

fn first_labelled_exec(es: &Vec<ScrapedElement>, keys: &Vec<Vec<char>>) -> (r: Option<String>)
    ensures
        opt_view(r) == first_labelled(scraped_views(es@), views_of(keys@)),
{
    let ghost all = scraped_views(es@);
    let mut i: usize = 0;
    assert(all.subrange(0, all.len() as int) =~= all);
    while i < es.len()
        invariant
            i <= es@.len(),
            all == scraped_views(es@),
            first_labelled(all, views_of(keys@)) == first_labelled(all.subrange(i as int, all.len() as int), views_of(keys@)),
        decreases es.len() - i,
    {
        let ghost rest = all.subrange(i as int, all.len() as int);
        assert(rest[0] == es@[i as int].view_tuple());
        if label_has_any_exec(&es[i], keys) {
            return Some(normalized_text(es[i].text.as_str()));
        }
        assert(rest.drop_first() =~= all.subrange(i + 1, all.len() as int));
        i = i + 1;
    }
    None
}

fn all_labelled_exec(es: &Vec<ScrapedElement>, key: &str) -> (r: Vec<Vec<char>>)
    ensures
        views_of(r@) == all_labelled(scraped_views(es@), key@),
{
    let ghost all = scraped_views(es@);
    let mut keys: Vec<Vec<char>> = Vec::new();
    keys.push(chars_of(key));
    assert(views_of(keys@) =~= seq![key@]);
    let mut out: Vec<Vec<char>> = Vec::new();
    let mut i: usize = 0;
    while i < es.len()
        invariant
            i <= es@.len(),
            all == scraped_views(es@),
            views_of(keys@) == seq![key@],
            views_of(out@) == all_labelled(all.subrange(0, i as int), key@),
        decreases es.len() - i,
    {
        assert(all.subrange(0, i + 1).drop_last() =~= all.subrange(0, i as int));
        assert(all.subrange(0, i + 1).last() == es@[i as int].view_tuple());
        if label_has_any_exec(&es[i], &keys) {
            let t = normalized_text(es[i].text.as_str());
            let ghost before = views_of(out@);
            out.push(chars_of(t.as_str()));
            assert(views_of(out@) =~= before.push(t@));
        }
        i = i + 1;
    }
    assert(all.subrange(0, all.len() as int) =~= all);
    out
}

/// The title of a movie (its fragment of the page).
pub open spec fn movie_title_spec(m: Seq<char>) -> Seq<char> {
    or_missing(first_text_spec(fragment_matches(m, MOVIE_NAME_SELECTOR@, Seq::empty())))
}

/// The genres of a movie: the first information entry, without its bars and trimmed, when it
/// has a bar; else the missing-data label.
pub open spec fn movie_genres_spec(m: Seq<char>) -> Seq<char> {
    let raw = or_missing(first_text_spec(fragment_matches(m, MOVIE_INFO_SELECTOR@, Seq::empty())));
    if contains_seq(raw, "|"@) { trim_seq(replace_seq(raw, "|"@, Seq::empty())) } else { MISSING_DATA_LABEL@ }
}

/// The original language of a movie: the first span labelled "original-lang".
pub open spec fn original_language_spec(m: Seq<char>) -> Seq<char> {
    or_missing(first_labelled(fragment_matches(m, LABELLED_SPAN_SELECTOR@, seq!["aria-label"@]), seq!["original-lang"@]))
}

/// The first information entry that reads as a running time.
pub open spec fn first_play_length(es: Seq<ElementView>) -> Option<Seq<char>>
    decreases es.len(),
{
    if es.len() == 0 {
        None
    } else if regex_matches(PLAY_LENGTH_PATTERN@, normalized_text_spec(es[0].1)) {
        Some(normalized_text_spec(es[0].1))
    } else {
        first_play_length(es.drop_first())
    }
}

pub open spec fn movie_play_length_spec(m: Seq<char>) -> Seq<char> {
    or_missing(first_play_length(fragment_matches(m, MOVIE_INFO_SELECTOR@, Seq::empty())))
}

pub struct MovieFields {
    pub title: String,
    pub genres: String,
    pub play_length: String,
    pub original_language: String,
}

fn movie_title(m: &str) -> (r: String)
    ensures
        r@ == movie_title_spec(m@),
{
    let es = select_in_fragment(m, MOVIE_NAME_SELECTOR, &Vec::new());
    assert(name_views(Seq::<&str>::empty()) =~= Seq::<Seq<char>>::empty());
    match first_text(&es) {
        Some(t) => t,
        None => MISSING_DATA_LABEL.to_owned(),
    }
}

fn movie_genres(m: &str) -> (r: String)
    ensures
        r@ == movie_genres_spec(m@),
{
    let es = select_in_fragment(m, MOVIE_INFO_SELECTOR, &Vec::new());
    assert(name_views(Seq::<&str>::empty()) =~= Seq::<Seq<char>>::empty());
    let raw = match first_text(&es) {
        Some(t) => t,
        None => MISSING_DATA_LABEL.to_owned(),
    };
    let rc = chars_of(raw.as_str());
    if contains_str(rc.as_slice(), "|") {
        let bar = chars_of("|");
        proof {
            reveal_strlit("|");
        }
        let empty: Vec<char> = Vec::new();
        let removed = replace(rc.as_slice(), bar.as_slice(), empty.as_slice());
        assert(empty@ =~= Seq::<char>::empty());
        string_of(trim(removed.as_slice()).as_slice())
    } else {
        MISSING_DATA_LABEL.to_owned()
    }
}

fn original_language(m: &str) -> (r: String)
    ensures
        r@ == original_language_spec(m@),
{
    let names: Vec<&str> = vec!["aria-label"];
    let es = select_in_fragment(m, LABELLED_SPAN_SELECTOR, &names);
    assert(name_views(names@) =~= seq!["aria-label"@]);
    let mut keys: Vec<Vec<char>> = Vec::new();
    keys.push(chars_of("original-lang"));
    assert(views_of(keys@) =~= seq!["original-lang"@]);
    match first_labelled_exec(&es, &keys) {
        Some(t) => t,
        None => MISSING_DATA_LABEL.to_owned(),
    }
}

fn movie_play_length(m: &str) -> (r: String)
    ensures
        r@ == movie_play_length_spec(m@),
{
    let es = select_in_fragment(m, MOVIE_INFO_SELECTOR, &Vec::new());
    assert(name_views(Seq::<&str>::empty()) =~= Seq::<Seq<char>>::empty());
    let ghost all = scraped_views(es@);
    let mut i: usize = 0;
    assert(all.subrange(0, all.len() as int) =~= all);
    while i < es.len()
        invariant
            i <= es@.len(),
            all == scraped_views(es@),
            all == fragment_matches(m@, MOVIE_INFO_SELECTOR@, Seq::empty()),
            first_play_length(all) == first_play_length(all.subrange(i as int, all.len() as int)),
        decreases es.len() - i,
    {
        let ghost rest = all.subrange(i as int, all.len() as int);
        assert(rest[0] == es@[i as int].view_tuple());
        let t = normalized_text(es[i].text.as_str());
        if regex_is_match(PLAY_LENGTH_PATTERN, t.as_str()) {
            return t;
        }
        assert(rest.drop_first() =~= all.subrange(i + 1, all.len() as int));
        i = i + 1;
    }
    MISSING_DATA_LABEL.to_owned()
}

/// The format of a group of showings: its attributes labelled "Screening type", joined by
/// spaces.
pub open spec fn play_format_spec(d: Seq<char>) -> Seq<char> {
    crate::multikino::spaced_or_missing(all_labelled(fragment_matches(d, SCREENING_ATTRIBUTE_SELECTOR@, seq!["aria-label"@]), "Screening type"@))
}

/// The labels that mark the subtitle or dubbing kind of a group of showings.
pub open spec fn language_prefix_keys() -> Seq<Seq<char>> {
    seq!["subAbbr"@, "dubAbbr"@, "noSubs"@]
}

/// The labels that mark the subtitle or dubbing language of a group of showings.
pub open spec fn language_keys() -> Seq<Seq<char>> {
    seq!["subbed-lang"@, "dubbed-lang"@, "first-subbed-lang-"@, "first-dubbed-lang-"@]
}

/// The language of a group of showings: its kind, followed by ": " and its language when
/// that is not empty; the missing-data label without a kind.
pub open spec fn play_language_spec(d: Seq<char>) -> Seq<char> {
    let es = fragment_matches(d, LABELLED_SPAN_SELECTOR@, seq!["aria-label"@]);
    match first_labelled(es, language_prefix_keys()) {
        Some(p) => match first_labelled(es, language_keys()) {
            Some(l) => if l.len() > 0 { p + ": "@ + l } else { p },
            None => p,
        },
        None => MISSING_DATA_LABEL@,
    }
}

fn play_format(d: &str) -> (r: String)
    ensures
        r@ == play_format_spec(d@),
{
    let names: Vec<&str> = vec!["aria-label"];
    let es = select_in_fragment(d, SCREENING_ATTRIBUTE_SELECTOR, &names);
    assert(name_views(names@) =~= seq!["aria-label"@]);
    let formats = all_labelled_exec(&es, "Screening type");
    if formats.len() == 0 {
        MISSING_DATA_LABEL.to_owned()
    } else {
        string_of(join(&formats, chars_of(" ").as_slice()).as_slice())
    }
}

fn play_language(d: &str) -> (r: String)
    ensures
        r@ == play_language_spec(d@),
{
    let names: Vec<&str> = vec!["aria-label"];
    let es = select_in_fragment(d, LABELLED_SPAN_SELECTOR, &names);
    assert(name_views(names@) =~= seq!["aria-label"@]);
    let mut prefix_keys: Vec<Vec<char>> = Vec::new();
    prefix_keys.push(chars_of("subAbbr"));
    prefix_keys.push(chars_of("dubAbbr"));
    prefix_keys.push(chars_of("noSubs"));
    assert(views_of(prefix_keys@) =~= language_prefix_keys());
    let mut keys: Vec<Vec<char>> = Vec::new();
    keys.push(chars_of("subbed-lang"));
    keys.push(chars_of("dubbed-lang"));
    keys.push(chars_of("first-subbed-lang-"));
    keys.push(chars_of("first-dubbed-lang-"));
    assert(views_of(keys@) =~= language_keys());
    let prefix = first_labelled_exec(&es, &prefix_keys);
    let language = first_labelled_exec(&es, &keys);
    match prefix {
        Some(p) => match language {
            Some(l) => {
                let lc = chars_of(l.as_str());
                if lc.len() > 0 {
                    let mut v = chars_of(p.as_str());
                    push_str(&mut v, ": ");
                    push_all(&mut v, lc.as_slice());
                    string_of(v.as_slice())
                } else {
                    p
                }
            },
            None => p,
        },
        None => MISSING_DATA_LABEL.to_owned(),
    }
}

/// The attributes through which a showing button can lead to booking.
pub open spec fn booking_hint_names() -> Seq<Seq<char>> {
    seq!["href"@, "ng-href"@, "data-ng-href"@, "ng-click"@, "data-ng-click"@, "onclick"@]
}

/// A showing button with a booking attribute that is not blank.
pub open spec fn has_booking_hint(e: ElementView) -> bool {
    exists|k: int| 0 <= k < e.2.len() && (#[trigger] e.2[k]) is Some && trim_seq(e.2[k]->0).len() > 0
}

/// The showing times of a group: each button's text, linked to the movie's page when the
/// button can lead to booking.
pub open spec fn play_times_spec(d: Seq<char>, url: Option<Seq<char>>) -> Seq<TimeView> {
    let es = fragment_matches(d, PLAY_TIME_SELECTOR@, booking_hint_names());
    Seq::new(es.len(), |i: int| (normalized_text_spec(es[i].1), if has_booking_hint(es[i]) { url } else { None }))
}

pub open spec fn play_detail_spec(d: Seq<char>, url: Option<Seq<char>>) -> (Seq<char>, Seq<char>, Seq<TimeView>) {
    (play_format_spec(d), play_language_spec(d), play_times_spec(d, url))
}

/// The groups of showings of a movie, in page order.
pub open spec fn play_details_spec(m: Seq<char>, url: Option<Seq<char>>) -> Seq<(Seq<char>, Seq<char>, Seq<TimeView>)> {
    let ds = fragment_matches(m, PLAY_DETAILS_SELECTOR@, Seq::empty());
    Seq::new(ds.len(), |i: int| play_detail_spec(ds[i].0, url))
}

fn has_booking_hint_exec(e: &ScrapedElement) -> (r: bool)
    ensures
        r == has_booking_hint(e.view_tuple()),
{
    let mut k: usize = 0;
    while k < e.attributes.len()
        invariant
            k <= e.attributes@.len(),
            forall|j: int| 0 <= j < k ==> !((#[trigger] e.view_tuple().2[j]) is Some && trim_seq(e.view_tuple().2[j]->0).len() > 0),
        decreases e.attributes.len() - k,
    {
        match &e.attributes[k] {
            Some(v) => {
                assert(e.view_tuple().2[k as int] == Some(v@));
                if trim(chars_of(v.as_str()).as_slice()).len() > 0 {
                    return true;
                }
            },
            None => {
                assert(e.view_tuple().2[k as int] is None);
            },
        }
        k = k + 1;
    }
    false
}

fn play_times(d: &str, url: &Option<String>) -> (r: Vec<MoviePlayTime>)
    ensures
        r@.map_values(|t: MoviePlayTime| time_view(t)) == play_times_spec(d@, opt_view(*url)),
{
    let names: Vec<&str> = vec!["href", "ng-href", "data-ng-href", "ng-click", "data-ng-click", "onclick"];
    let es = select_in_fragment(d, PLAY_TIME_SELECTOR, &names);
    assert(name_views(names@) =~= booking_hint_names());
    let ghost all = scraped_views(es@);
    let ghost target = play_times_spec(d@, opt_view(*url));
    let mut out: Vec<MoviePlayTime> = Vec::new();
    let mut i: usize = 0;
    while i < es.len()
        invariant
            i <= es@.len(),
            all == scraped_views(es@),
            target == play_times_spec(d@, opt_view(*url)),
            all == fragment_matches(d@, PLAY_TIME_SELECTOR@, booking_hint_names()),
            out@.map_values(|t: MoviePlayTime| time_view(t)) == target.subrange(0, i as int),
        decreases es.len() - i,
    {
        assert(all[i as int] == es@[i as int].view_tuple());
        let value = normalized_text(es[i].text.as_str());
        let link = if has_booking_hint_exec(&es[i]) {
            match url {
                Some(u) => Some(u.clone()),
                None => None,
            }
        } else {
            None
        };
        let ghost before = out@.map_values(|t: MoviePlayTime| time_view(t));
        let t = MoviePlayTime { value, url: link };
        out.push(t);
        assert(out@.map_values(|t: MoviePlayTime| time_view(t)) =~= before.push(time_view(t)));
        assert(time_view(t) == target[i as int]);
        assert(out@.map_values(|t: MoviePlayTime| time_view(t)) =~= target.subrange(0, i + 1));
        i = i + 1;
    }
    assert(target.subrange(0, es@.len() as int) =~= target);
    out
}

fn play_details(m: &str, url: &Option<String>) -> (r: Vec<MoviePlayDetails>)
    ensures
        details_views(r@) == play_details_spec(m@, opt_view(*url)),
{
    let ds = select_in_fragment(m, PLAY_DETAILS_SELECTOR, &Vec::new());
    assert(name_views(Seq::<&str>::empty()) =~= Seq::<Seq<char>>::empty());
    let ghost all = scraped_views(ds@);
    let ghost target = play_details_spec(m@, opt_view(*url));
    let mut out: Vec<MoviePlayDetails> = Vec::new();
    let mut i: usize = 0;
    while i < ds.len()
        invariant
            i <= ds@.len(),
            all == scraped_views(ds@),
            all == fragment_matches(m@, PLAY_DETAILS_SELECTOR@, Seq::empty()),
            target == play_details_spec(m@, opt_view(*url)),
            details_views(out@) == target.subrange(0, i as int),
        decreases ds.len() - i,
    {
        assert(all[i as int] == ds@[i as int].view_tuple());
        let h = ds[i].html.as_str();
        let d = MoviePlayDetails { format: play_format(h), play_language: play_language(h), play_times: play_times(h, url) };
        let ghost before = details_views(out@);
        out.push(d);
        assert(details_view(d) == target[i as int]);
        assert(details_views(out@) =~= before.push(details_view(d)));
        assert(details_views(out@) =~= target.subrange(0, i + 1));
        i = i + 1;
    }
    assert(target.subrange(0, ds@.len() as int) =~= target);
    out
}

/// The page of a movie: the first movie link's address, made absolute.
pub open spec fn first_href(es: Seq<ElementView>) -> Option<Seq<char>>
    decreases es.len(),
{
    if es.len() == 0 {
        None
    } else if es[0].2.len() > 0 && es[0].2[0] is Some {
        es[0].2[0]
    } else {
        first_href(es.drop_first())
    }
}

pub open spec fn movie_page_url_spec(m: Seq<char>) -> Option<Seq<char>> {
    match first_href(fragment_matches(m, MOVIE_LINK_SELECTOR@, seq!["href"@])) {
        Some(h) => canonical_url_spec(h),
        None => None,
    }
}

fn movie_page_url(m: &str) -> (r: Option<String>)
    ensures
        opt_view(r) == movie_page_url_spec(m@),
{
    let names: Vec<&str> = vec!["href"];
    let es = select_in_fragment(m, MOVIE_LINK_SELECTOR, &names);
    assert(name_views(names@) =~= seq!["href"@]);
    let ghost all = scraped_views(es@);
    let mut i: usize = 0;
    assert(all.subrange(0, all.len() as int) =~= all);
    while i < es.len()
        invariant
            i <= es@.len(),
            all == scraped_views(es@),
            all == fragment_matches(m@, MOVIE_LINK_SELECTOR@, seq!["href"@]),
            first_href(all) == first_href(all.subrange(i as int, all.len() as int)),
        decreases es.len() - i,
    {
        let ghost rest = all.subrange(i as int, all.len() as int);
        assert(rest[0] == es@[i as int].view_tuple());
        if es[i].attributes.len() > 0 {
            match &es[i].attributes[0] {
                Some(h) => {
                    assert(rest[0].2[0] == Some(h@));
                    return CinemaCity::canonicalize_cinema_city_url(h.as_str());
                },
                None => {},
            }
        }
        assert(rest.drop_first() =~= all.subrange(i + 1, all.len() as int));
        i = i + 1;
    }
    None
}

/// A movie announced as a presale: one of its group headings reads "PRZEDSPRZED" once upper
/// cased.
pub open spec fn is_presale_spec(m: Seq<char>) -> bool {
    let hs = fragment_matches(m, PRESALE_HEADING_SELECTOR@, Seq::empty());
    exists|i: int| 0 <= i < hs.len() && contains_seq(unicode_uppercase(normalized_text_spec(#[trigger] hs[i].1)), "PRZEDSPRZED"@)
}

fn is_presale(m: &str) -> (r: bool)
    ensures
        r == is_presale_spec(m@),
{
    let hs = select_in_fragment(m, PRESALE_HEADING_SELECTOR, &Vec::new());
    assert(name_views(Seq::<&str>::empty()) =~= Seq::<Seq<char>>::empty());
    let ghost all = scraped_views(hs@);
    let mut i: usize = 0;
    while i < hs.len()
        invariant
            i <= hs@.len(),
            all == scraped_views(hs@),
            all == fragment_matches(m@, PRESALE_HEADING_SELECTOR@, Seq::empty()),
            forall|j: int| 0 <= j < i ==> !contains_seq(unicode_uppercase(normalized_text_spec(#[trigger] all[j].1)), "PRZEDSPRZED"@),
        decreases hs.len() - i,
    {
        assert(all[i as int] == hs@[i as int].view_tuple());
        let t = normalized_text(hs[i].text.as_str());
        let u = to_uppercase(t.as_str());
        if contains_str(chars_of(u.as_str()).as_slice(), "PRZEDSPRZED") {
            assert(contains_seq(unicode_uppercase(normalized_text_spec(all[i as int].1)), "PRZEDSPRZED"@));
            return true;
        }
        i = i + 1;
    }
    false
}

/// The ASCII digits at the start of `s`.
pub open spec fn leading_digits(s: Seq<char>) -> Seq<char>
    decreases s.len(),
{
    if s.len() > 0 && crate::text::is_ascii_digit_spec(s[0]) {
        seq![s[0]] + leading_digits(s.drop_first())
    } else {
        Seq::empty()
    }
}

/// The running time that a length text states: its leading digits, followed by " min",
/// read as a number from 1 to 65535.
pub open spec fn runtime_from_length(pl: Seq<char>) -> Option<u16> {
    let d = leading_digits(pl);
    let v = crate::retry::digits_value(d);
    if d.len() > 0 && starts_with_seq(pl.subrange(d.len() as int, pl.len() as int), " min"@) && 1 <= v <= 65535 {
        Some(v as u16)
    } else {
        None
    }
}

proof fn lemma_digits_value_grows(s: Seq<char>, c: char)
    requires
        crate::text::is_ascii_digit_spec(c),
    ensures
        crate::retry::digits_value(s.push(c)) >= crate::retry::digits_value(s),
        crate::retry::digits_value(s.push(c)) == crate::retry::digits_value(s) * 10 + (c as nat - '0' as nat),
{
    assert(s.push(c).drop_last() =~= s);
}

fn runtime_minutes(pl: &str) -> (r: Option<u16>)
    ensures
        r == runtime_from_length(pl@),
{
    let s = chars_of(pl);
    let mut i: usize = 0;
    let mut value: u32 = 0;
    let mut too_large = false;
    assert(s@.subrange(0, 0) =~= Seq::<char>::empty());
    assert(s@.subrange(0, s@.len() as int) =~= s@);
    while i < s.len() && crate::text::is_ascii_digit(s[i])
        invariant
            i <= s@.len(),
            leading_digits(s@) == s@.subrange(0, i as int) + leading_digits(s@.subrange(i as int, s@.len() as int)),
            forall|j: int| 0 <= j < i ==> crate::text::is_ascii_digit_spec(#[trigger] s@[j]),
            !too_large ==> value == crate::retry::digits_value(s@.subrange(0, i as int)) && value <= 65535,
            too_large ==> crate::retry::digits_value(s@.subrange(0, i as int)) > 65535,
        decreases s.len() - i,
    {
        let ghost pre = s@.subrange(0, i as int);
        let ghost rest = s@.subrange(i as int, s@.len() as int);
        assert(rest[0] == s@[i as int]);
        assert(rest.drop_first() =~= s@.subrange(i + 1, s@.len() as int));
        assert(s@.subrange(0, i + 1) =~= pre.push(s@[i as int]));
        proof {
            lemma_digits_value_grows(pre, s@[i as int]);
        }
        assert(s@.subrange(0, i as int) + leading_digits(rest) =~= s@.subrange(0, i + 1) + leading_digits(s@.subrange(i + 1, s@.len() as int)));
        let digit = (s[i] as u32) - ('0' as u32);
        if !too_large {
            let next = value * 10 + digit;
            if next > 65535 {
                too_large = true;
            } else {
                value = next;
            }
        }
        i = i + 1;
    }
    let ghost rest = s@.subrange(i as int, s@.len() as int);
    assert(leading_digits(rest) =~= Seq::<char>::empty()) by {
        if rest.len() > 0 {
            assert(rest[0] == s@[i as int]);
        }
    }
    assert(leading_digits(s@) =~= s@.subrange(0, i as int));
    if i == 0 || too_large || value == 0 {
        return None;
    }
    let tail = crate::text::copy_range(s.as_slice(), i, s.len());
    if starts_with(tail.as_slice(), chars_of(" min").as_slice()) {
        Some(value as u16)
    } else {
        None
    }
}

/// The page of a movie without its fragment and query.
pub open spec fn page_without_fragment(url: Seq<char>) -> Seq<char> {
    crate::text::split_seq(crate::text::split_seq(url, seq!['#'])[0], seq!['?'])[0]
}

/// The chain's id of a movie: the last path segment of its page, when not empty.
pub open spec fn movie_id_of_page(page: Seq<char>) -> Option<Seq<char>> {
    let last = crate::text::split_seq(page, seq!['/']).last();
    if last.len() > 0 { Some(last) } else { None }
}

/// What the lookup of a movie can use from the page: the movie's id and page (from its
/// link), its running time, its original language and its genres.
pub open spec fn page_metadata_spec(
    play_length: Seq<char>,
    original_language: Seq<char>,
    genres: Seq<char>,
    url: Option<Seq<char>>,
) -> crate::showings::MetadataView {
    let page = match url {
        Some(u) => Some(page_without_fragment(u)),
        None => None,
    };
    (
        match page {
            Some(p) => movie_id_of_page(p),
            None => None,
        },
        page,
        Seq::empty(),
        runtime_from_length(play_length),
        if original_language == MISSING_DATA_LABEL@ { None } else { Some(original_language) },
        if genres == MISSING_DATA_LABEL@ { Seq::empty() } else { crate::showings::genre_tags_spec(crate::text::split_seq(genres, seq![','])) },
        None,
        None,
    )
}

proof fn lemma_split_first(s: Seq<char>, seps: Seq<char>)
    ensures
        crate::text::split_seq(s, seps).len() >= 1,
{
    crate::text::lemma_split_nonempty(s, seps);
}

fn first_piece(s: &[char], sep: char) -> (r: Vec<char>)
    ensures
        r@ == crate::text::split_seq(s@, seq![sep])[0],
{
    let seps: Vec<char> = vec![sep];
    assert(seps@ =~= seq![sep]);
    let pieces = crate::text::split_on(s, seps.as_slice());
    proof {
        lemma_split_first(s@, seq![sep]);
    }
    assert(views_of(pieces@)[0] == pieces@[0]@);
    pieces[0].clone()
}

fn page_metadata(play_length: &String, original_language: &String, genres: &String, url: &Option<String>) -> (r: MovieLookupMetadata)
    ensures
        metadata_view(r) == page_metadata_spec(play_length@, original_language@, genres@, opt_view(*url)),
{
    let (chain_movie_id, movie_page_url) = match url {
        Some(u) => {
            let without_fragment = first_piece(chars_of(u.as_str()).as_slice(), '#');
            let page = first_piece(without_fragment.as_slice(), '?');
            let seps: Vec<char> = vec!['/'];
            assert(seps@ =~= seq!['/']);
            let segments = crate::text::split_on(page.as_slice(), seps.as_slice());
            proof {
                lemma_split_first(page@, seq!['/']);
            }
            let last = segments[segments.len() - 1].clone();
            assert(views_of(segments@).last() == last@);
            let id = if last.len() > 0 { Some(string_of(last.as_slice())) } else { None };
            (id, Some(string_of(page.as_slice())))
        },
        None => (None, None),
    };
    let missing = chars_of(MISSING_DATA_LABEL);
    let lang = chars_of(original_language.as_str());
    let original_language_code = if crate::text::chars_eq(lang.as_slice(), missing.as_slice()) {
        None
    } else {
        Some(original_language.clone())
    };
    let g = chars_of(genres.as_str());
    let genre_tags = if crate::text::chars_eq(g.as_slice(), missing.as_slice()) {
        Vec::new()
    } else {
        let seps: Vec<char> = vec![','];
        assert(seps@ =~= seq![',']);
        let parts = crate::text::split_on(g.as_slice(), seps.as_slice());
        let names = crate::text::strings_of(&parts);
        assert(string_views(names@) =~= views_of(parts@));
        crate::showings::normalize_genre_tags(&names)
    };
    let r = MovieLookupMetadata {
        chain_movie_id,
        movie_page_url,
        alternate_titles: Vec::new(),
        runtime_minutes: runtime_minutes(play_length.as_str()),
        original_language_code,
        genre_tags,
        production_year: None,
        polish_premiere_date: None,
    };
    assert(string_views(r.alternate_titles@) =~= Seq::<Seq<char>>::empty());
    assert(genres@ == MISSING_DATA_LABEL@ ==> string_views(r.genre_tags@) =~= Seq::<Seq<char>>::empty());
    r
}

/// A movie of the page (its fragment), as a repertoire entry.
pub open spec fn movie_spec(m: Seq<char>) -> crate::showings::RepertoireView {
    let url = movie_page_url_spec(m);
    (
        movie_title_spec(m),
        movie_genres_spec(m),
        movie_play_length_spec(m),
        original_language_spec(m),
        play_details_spec(m, url),
        page_metadata_spec(movie_play_length_spec(m), original_language_spec(m), movie_genres_spec(m), url),
    )
}

/// The movies of a repertoire page, in page order, without presales.
pub open spec fn page_movies(ms: Seq<ElementView>) -> Seq<crate::showings::RepertoireView>
    decreases ms.len(),
{
    if ms.len() == 0 {
        Seq::empty()
    } else {
        let pre = page_movies(ms.drop_last());
        if is_presale_spec(ms.last().0) { pre } else { pre.push(movie_spec(ms.last().0)) }
    }
}

/// The pages of the movies of a repertoire page by title, in page order, without presales
/// (a later movie with the same title wins where they are looked up).
pub open spec fn page_fallbacks(ms: Seq<ElementView>) -> Seq<(Seq<char>, Seq<char>)>
    decreases ms.len(),
{
    if ms.len() == 0 {
        Seq::empty()
    } else {
        let pre = page_fallbacks(ms.drop_last());
        let m = ms.last().0;
        if is_presale_spec(m) {
            pre
        } else {
            match movie_page_url_spec(m) {
                Some(u) => pre.push((movie_title_spec(m), u)),
                None => pre,
            }
        }
    }
}

fn parse_movie(m: &str) -> (r: (Repertoire, Option<String>))
    ensures
        repertoire_view(r.0) == movie_spec(m@),
        opt_view(r.1) == movie_page_url_spec(m@),
{
    let url = movie_page_url(m);
    let title = movie_title(m);
    let genres = movie_genres(m);
    let play_length = movie_play_length(m);
    let original_language = original_language(m);
    let details = play_details(m, &url);
    let lookup_metadata = page_metadata(&play_length, &original_language, &genres, &url);
    (Repertoire { title, genres, play_length, original_language, play_details: details, lookup_metadata }, url)
}

impl CinemaCity {
    /// The movies of a rendered repertoire page (presales left out), with the page of each
    /// movie that links one, by title.
    pub fn parse_repertoire_page(rendered_html: &str) -> (r: (Vec<Repertoire>, Vec<(String, String)>))
        ensures
            repertoire_views(r.0@) == page_movies(document_matches(rendered_html@, REPERTOIRE_SELECTOR@, Seq::empty())),
            crate::cinema_city::pair_views(r.1@) == page_fallbacks(document_matches(rendered_html@, REPERTOIRE_SELECTOR@, Seq::empty())),
    {
        let ms = select_in_document(rendered_html, REPERTOIRE_SELECTOR, &Vec::new());
        assert(name_views(Seq::<&str>::empty()) =~= Seq::<Seq<char>>::empty());
        let ghost all = scraped_views(ms@);
        let mut movies: Vec<Repertoire> = Vec::new();
        let mut fallbacks: Vec<(String, String)> = Vec::new();
        let mut i: usize = 0;
        while i < ms.len()
            invariant
                i <= ms@.len(),
                all == scraped_views(ms@),
                repertoire_views(movies@) == page_movies(all.subrange(0, i as int)),
                crate::cinema_city::pair_views(fallbacks@) == page_fallbacks(all.subrange(0, i as int)),
            decreases ms.len() - i,
        {
            assert(all.subrange(0, i + 1).drop_last() =~= all.subrange(0, i as int));
            assert(all.subrange(0, i + 1).last() == ms@[i as int].view_tuple());
            let h = ms[i].html.as_str();
            if !is_presale(h) {
                let (movie, url) = parse_movie(h);
                match url {
                    Some(u) => {
                        let ghost before = crate::cinema_city::pair_views(fallbacks@);
                        fallbacks.push((movie.title.clone(), u));
                        assert(crate::cinema_city::pair_views(fallbacks@) =~= before.push((movie.title@, u@)));
                    },
                    None => {},
                }
                let ghost before = repertoire_views(movies@);
                movies.push(movie);
                assert(repertoire_views(movies@) =~= before.push(repertoire_view(movie)));
            }
            i = i + 1;
        }
        assert(all.subrange(0, all.len() as int) =~= all);
        (movies, fallbacks)
    }
}

} // verus!
