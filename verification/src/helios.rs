//! The Helios chain: its venues from the links of its home page, and its repertoire from the
//! state that its repertoire page holds.
use crate::common::{lookup_text_spec, normalize_lookup_text, opt_view, string_views, MISSING_DATA_LABEL};
use crate::domain::{venue_views, CinemaChainId, CinemaVenue, MovieLookupMetadata, MoviePlayDetails, MoviePlayTime, Repertoire};
use crate::error::AppResult;
use crate::ordering::{index_ints, key_views, stable_text_order, text_order_of};
use crate::retry::RetryPolicy;
use crate::showings::{
    add_showing, add_to_groups, byte_slice, byte_slice_spec, details_views, encoded_bytes, time_view, TimeView,
    genre_tags_spec, group_showings, groups_distinct, join_or_missing, joined_or_missing,
    normalize_genre_tags, parse_year_from_date, percent_encode_query_value, utf8_text,
    year_prefix_spec, metadata_view, repertoire_view, repertoire_views, MetadataView, RepertoireView,
};
use crate::text::{
    chars_eq, chars_of, contains_seq, contains_str, decimal_seq, eq_str, lower_seq, normalize_ws_seq,
    push_all, push_str, string_of, to_ascii_lowercase, to_ascii_uppercase, trim, trim_seq,
    u64_to_decimal, upper_seq,
};
use crate::matching::contains_word;
use crate::scrape::{
    document_matches, name_views, normalized_text, normalized_text_spec, scraped_views, select_in_document,
    ScrapedElement,
};
use crate::text::{normalize_whitespace, replace, replace_seq, views_of};
use vstd::prelude::*;

verus! {

pub const DEFAULT_HELIOS_BASE_URL: &'static str = "https://helios.pl";

pub const DEFAULT_HELIOS_VENUES_URL: &'static str = "https://helios.pl/";

/// The element whose presence shows that the home page has rendered.
pub const VENUES_PAGE_READY_SELECTOR: &'static str = "body";

/// The element whose presence shows that a repertoire page has rendered.
pub const REPERTOIRE_PAGE_READY_SELECTOR: &'static str = "section[control=\"repertoire-listing\"]";

/// The name under which the repertoire page's state is read.
pub const REPERTOIRE_STATE_EVALUATION_NAME: &'static str = "repertoire";

/// The name under which the page's current cinema is read.
pub const CURRENT_CINEMA_EVALUATION_NAME: &'static str = "current_cinema";

/// The links of the home page that lead to a Helios cinema.
pub const VENUE_LINK_SELECTOR: &'static str = "a[href^='/'][href*='/kino-helios']";

/// The Helios client's addresses and retry policy.
#[derive(Debug, Clone, PartialEq, Eq)]
pub struct Helios {
    pub base_url: String,
    pub venues_url: String,
    pub retry_policy: RetryPolicy,
}

impl Helios {
    pub fn new(base_url: String, venues_url: String) -> (r: Self)
        ensures
            r.base_url == base_url,
            r.venues_url == venues_url,
            r.retry_policy.max_attempts_spec() == 4,
            r.retry_policy.initial_delay_spec() == 250 * crate::retry::NANOS_PER_MILLI,
            r.retry_policy.max_delay_spec() == 2000 * crate::retry::NANOS_PER_MILLI,
    {
        Helios { base_url, venues_url, retry_policy: RetryPolicy::network_requests() }
    }

    pub fn with_retry_policy(self, retry_policy: RetryPolicy) -> (r: Self)
        ensures
            r.base_url == self.base_url,
            r.venues_url == self.venues_url,
            r.retry_policy == retry_policy,
    {
        Helios { base_url: self.base_url, venues_url: self.venues_url, retry_policy }
    }

    /// The repertoire page of a venue.
    pub fn build_repertoire_url(&self, venue_id: &str) -> (r: String)
        ensures
            r@ == trim_end_char_seq(self.base_url@, '/') + "/"@ + trim_char_seq(venue_id@, '/') + "/repertuar"@,
    {
        let mut v = trim_end_char(chars_of(self.base_url.as_str()).as_slice(), '/');
        push_str(&mut v, "/");
        let id = trim_char(chars_of(venue_id).as_slice(), '/');
        crate::text::push_all(&mut v, id.as_slice());
        push_str(&mut v, "/repertuar");
        string_of(v.as_slice())
    }
}

/// `s` without the character `c` at its end.
pub open spec fn trim_end_char_seq(s: Seq<char>, c: char) -> Seq<char>
    decreases s.len(),
{
    if s.len() > 0 && s.last() == c {
        trim_end_char_seq(s.drop_last(), c)
    } else {
        s
    }
}

/// `s` without the character `c` at its start.
pub open spec fn trim_start_char_seq(s: Seq<char>, c: char) -> Seq<char>
    decreases s.len(),
{
    if s.len() > 0 && s[0] == c {
        trim_start_char_seq(s.drop_first(), c)
    } else {
        s
    }
}

/// `s` without the character `c` at either end (`str::trim_matches`).
pub open spec fn trim_char_seq(s: Seq<char>, c: char) -> Seq<char> {
    trim_end_char_seq(trim_start_char_seq(s, c), c)
}

pub fn trim_end_char(s: &[char], c: char) -> (r: Vec<char>)
    ensures
        r@ == trim_end_char_seq(s@, c),
{
    let mut end: usize = s.len();
    assert(s@.subrange(0, s@.len() as int) =~= s@);
    while end > 0 && s[end - 1] == c
        invariant
            end <= s@.len(),
            trim_end_char_seq(s@, c) == trim_end_char_seq(s@.subrange(0, end as int), c),
        decreases end,
    {
        assert(s@.subrange(0, end as int).drop_last() =~= s@.subrange(0, end - 1));
        end = end - 1;
    }
    crate::text::copy_range(s, 0, end)
}

pub fn trim_start_char(s: &[char], c: char) -> (r: Vec<char>)
    ensures
        r@ == trim_start_char_seq(s@, c),
{
    let mut start: usize = 0;
    assert(s@.subrange(0, s@.len() as int) =~= s@);
    while start < s.len() && s[start] == c
        invariant
            start <= s@.len(),
            trim_start_char_seq(s@, c) == trim_start_char_seq(s@.subrange(start as int, s@.len() as int), c),
        decreases s.len() - start,
    {
        assert(s@.subrange(start as int, s@.len() as int).drop_first() =~= s@.subrange(start + 1, s@.len() as int));
        start = start + 1;
    }
    crate::text::copy_range(s, start, s.len())
}

pub fn trim_char(s: &[char], c: char) -> (r: Vec<char>)
    ensures
        r@ == trim_char_seq(s@, c),
{
    let t = trim_start_char(s, c);
    trim_end_char(t.as_slice(), c)
}

#[derive(Debug, Clone, PartialEq, Eq)]
pub struct HeliosNamedValue {
    pub name: String,
}

/// A movie or event of the repertoire's catalog.
#[derive(Debug, Clone, PartialEq, Eq)]
pub struct HeliosCatalogItem {
    pub id: u32,
    pub source_id: String,
    pub title: String,
    pub title_original: Option<String>,
    pub slug: String,
    pub duration: Option<u16>,
    pub genres: Vec<HeliosNamedValue>,
    pub premiere_date: Option<String>,
    pub cinema_premiere_date: Option<String>,
    pub is_event: bool,
    pub is_imax: bool,
}

#[derive(Debug, Clone, PartialEq, Eq)]
pub struct HeliosCinemaScreen {
    pub feature: String,
}

#[derive(Debug, Clone, PartialEq, Eq)]
pub struct HeliosMoviePrint {
    pub print_type: String,
    pub print_release: String,
    pub sound_type: String,
    pub speaking_type_label: Option<String>,
}

#[derive(Debug, Clone, PartialEq, Eq)]
pub struct HeliosEventInfo {
    pub id: u32,
    pub source_id: String,
    pub name: String,
    pub slug: String,
    pub duration: Option<u16>,
    pub genres: Vec<HeliosNamedValue>,
    pub is_imax: bool,
}

#[derive(Debug, Clone, PartialEq, Eq)]
pub struct HeliosNestedMovie {
    pub id: u32,
    pub source_id: String,
    pub title: String,
    pub title_original: Option<String>,
    pub slug: String,
    pub duration: Option<u16>,
    pub genres: Vec<HeliosNamedValue>,
    pub premiere_date: Option<String>,
    pub cinema_premiere_date: Option<String>,
    pub is_imax: bool,
}

#[derive(Debug, Clone, PartialEq, Eq)]
pub struct HeliosScreeningMovie {
    pub movie: HeliosNestedMovie,
    pub movie_print: HeliosMoviePrint,
}

/// One screening of a day.
#[derive(Debug, Clone, PartialEq, Eq)]
pub struct HeliosDayScreening {
    pub time_from: String,
    pub source_id: String,
    pub cinema_source_id: String,
    pub cinema_screen: HeliosCinemaScreen,
    pub movie_print: HeliosMoviePrint,
    pub event: Option<HeliosEventInfo>,
    pub screening_movies: Vec<HeliosScreeningMovie>,
}

/// The screenings of one catalog item on one day.
#[derive(Debug, Clone, PartialEq, Eq)]
pub struct HeliosDateEntry {
    pub screenings: Vec<HeliosDayScreening>,
}

/// The repertoire state of the page: the catalog, and per date (`YYYY-MM-DD`) the entries of
/// the catalog items by their key. Dates and keys are distinct, as in the page's JSON.
#[derive(Debug, Clone, PartialEq, Eq)]
pub struct HeliosRepertoireState {
    pub list: Vec<HeliosCatalogItem>,
    pub screenings: Vec<(String, Vec<(String, HeliosDateEntry)>)>,
}

/// The cinema the page shows.
#[derive(Debug, Clone, PartialEq, Eq)]
pub struct HeliosCurrentCinema {
    pub slug_city: String,
    pub slug: String,
}

impl HeliosCurrentCinema {
    /// The path of the cinema: its city and its own slug, without surrounding slashes.
    pub fn route_fragment(&self) -> (r: String)
        ensures
            r@ == trim_char_seq(self.slug_city@, '/') + "/"@ + trim_char_seq(self.slug@, '/'),
    {
        let mut v = trim_char(chars_of(self.slug_city.as_str()).as_slice(), '/');
        push_str(&mut v, "/");
        let s = trim_char(chars_of(self.slug.as_str()).as_slice(), '/');
        push_all(&mut v, s.as_slice());
        string_of(v.as_slice())
    }
}

/// The key of a catalog item among a day's entries: `e` for events, `m` for movies, then
/// the id.
pub open spec fn entry_key_spec(item: HeliosCatalogItem) -> Seq<char> {
    (if item.is_event {
        seq!['e']
    } else {
        seq!['m']
    }) + decimal_seq(item.id as nat)
}

pub fn entry_key_for(item: &HeliosCatalogItem) -> (r: String)
    ensures
        r@ == entry_key_spec(*item),
{
    let mut v: Vec<char> = Vec::new();
    v.push(if item.is_event {
        'e'
    } else {
        'm'
    });
    let d = u64_to_decimal(item.id as u64);
    push_all(&mut v, d.as_slice());
    assert(v@ =~= entry_key_spec(*item));
    string_of(v.as_slice())
}

pub open spec fn blank(s: Seq<char>) -> bool {
    trim_seq(s).len() == 0
}

pub open spec fn print_is_empty(p: HeliosMoviePrint) -> bool {
    blank(p.print_type@) && blank(p.print_release@) && blank(p.sound_type@) && match p.speaking_type_label {
        Some(l) => blank(l@),
        None => true,
    }
}

impl HeliosMoviePrint {
    pub fn is_empty(&self) -> (r: bool)
        ensures
            r == print_is_empty(*self),
    {
        trim(chars_of(self.print_type.as_str()).as_slice()).len() == 0 && trim(chars_of(self.print_release.as_str()).as_slice()).len() == 0
            && trim(chars_of(self.sound_type.as_str()).as_slice()).len() == 0 && match &self.speaking_type_label {
            Some(l) => trim(chars_of(l.as_str()).as_slice()).len() == 0,
            None => true,
        }
    }

    /// A print with nothing set.
    pub fn empty() -> (r: Self)
        ensures
            r.print_type@.len() == 0,
            r.print_release@.len() == 0,
            r.sound_type@.len() == 0,
            r.speaking_type_label is None,
    {
        HeliosMoviePrint { print_type: String::new(), print_release: String::new(), sound_type: String::new(), speaking_type_label: None }
    }

    /// A copy of the print.
    pub fn duplicate(&self) -> (r: Self)
        ensures
            r == *self,
    {
        HeliosMoviePrint {
            print_type: self.print_type.clone(),
            print_release: self.print_release.clone(),
            sound_type: self.sound_type.clone(),
            speaking_type_label: match &self.speaking_type_label {
                Some(l) => Some(l.clone()),
                None => None,
            },
        }
    }
}

/// The print that describes a screening: its own, or when that one is empty, the print of
/// its first screened movie (an empty print when it has none).
pub open spec fn effective_print_spec(s: HeliosDayScreening) -> Option<HeliosMoviePrint> {
    if print_is_empty(s.movie_print) {
        if s.screening_movies@.len() > 0 {
            Some(s.screening_movies@[0].movie_print)
        } else {
            None
        }
    } else {
        Some(s.movie_print)
    }
}

impl HeliosDayScreening {
    /// The print that describes the screening; `None` in the contract stands for an empty
    /// print.
    pub fn effective_movie_print(&self) -> (r: HeliosMoviePrint)
        ensures
            match effective_print_spec(*self) {
                Some(p) => r == p,
                None => r.print_type@.len() == 0 && r.print_release@.len() == 0 && r.sound_type@.len() == 0 && r.speaking_type_label is None,
            },
    {
        if self.movie_print.is_empty() {
            if self.screening_movies.len() > 0 {
                self.screening_movies[0].movie_print.duplicate()
            } else {
                HeliosMoviePrint::empty()
            }
        } else {
            self.movie_print.duplicate()
        }
    }
}

/// The event of the first screening that has one.
pub open spec fn first_event_spec(screenings: Seq<HeliosDayScreening>) -> Option<HeliosEventInfo>
    decreases screenings.len(),
{
    if screenings.len() == 0 {
        None
    } else if screenings[0].event is Some {
        screenings[0].event
    } else {
        first_event_spec(screenings.drop_first())
    }
}

/// The movie of the first screened movie of any screening.
pub open spec fn first_movie_spec(screenings: Seq<HeliosDayScreening>) -> Option<HeliosNestedMovie>
    decreases screenings.len(),
{
    if screenings.len() == 0 {
        None
    } else if screenings[0].screening_movies@.len() > 0 {
        Some(screenings[0].screening_movies@[0].movie)
    } else {
        first_movie_spec(screenings.drop_first())
    }
}

impl HeliosDateEntry {
    pub fn first_event(&self) -> (r: Option<&HeliosEventInfo>)
        ensures
            match r {
                Some(e) => first_event_spec(self.screenings@) == Some(*e),
                None => first_event_spec(self.screenings@) is None,
            },
    {
        let mut i: usize = 0;
        assert(self.screenings@.subrange(0, self.screenings@.len() as int) =~= self.screenings@);
        while i < self.screenings.len()
            invariant
                i <= self.screenings@.len(),
                first_event_spec(self.screenings@) == first_event_spec(self.screenings@.subrange(i as int, self.screenings@.len() as int)),
            decreases self.screenings.len() - i,
        {
            let ghost rest = self.screenings@.subrange(i as int, self.screenings@.len() as int);
            assert(rest[0] == self.screenings@[i as int]);
            match &self.screenings[i].event {
                Some(e) => {
                    return Some(e);
                },
                None => {},
            }
            assert(rest.drop_first() =~= self.screenings@.subrange(i + 1, self.screenings@.len() as int));
            i = i + 1;
        }
        None
    }

    pub fn first_underlying_movie(&self) -> (r: Option<&HeliosNestedMovie>)
        ensures
            match r {
                Some(m) => first_movie_spec(self.screenings@) == Some(*m),
                None => first_movie_spec(self.screenings@) is None,
            },
    {
        let mut i: usize = 0;
        assert(self.screenings@.subrange(0, self.screenings@.len() as int) =~= self.screenings@);
        while i < self.screenings.len()
            invariant
                i <= self.screenings@.len(),
                first_movie_spec(self.screenings@) == first_movie_spec(self.screenings@.subrange(i as int, self.screenings@.len() as int)),
            decreases self.screenings.len() - i,
        {
            let ghost rest = self.screenings@.subrange(i as int, self.screenings@.len() as int);
            assert(rest[0] == self.screenings@[i as int]);
            if self.screenings[i].screening_movies.len() > 0 {
                return Some(&self.screenings[i].screening_movies[0].movie);
            }
            assert(rest.drop_first() =~= self.screenings@.subrange(i + 1, self.screenings@.len() as int));
            i = i + 1;
        }
        None
    }
}


/// The page of a movie (`filmy`) or of an event (`wydarzenie`) of a cinema.
pub open spec fn item_page_url_spec(base_url: Seq<char>, route_fragment: Seq<char>, is_event_page: bool, slug: Seq<char>, id: u32) -> Seq<char> {
    trim_end_char_seq(base_url, '/') + "/"@ + trim_char_seq(route_fragment, '/') + "/"@ + (if is_event_page {
        "wydarzenie"@
    } else {
        "filmy"@
    }) + "/"@ + slug + "-"@ + decimal_seq(id as nat)
}

pub fn build_item_page_url(base_url: &str, route_fragment: &str, is_event_page: bool, slug: &str, id: u32) -> (r: String)
    ensures
        r@ == item_page_url_spec(base_url@, route_fragment@, is_event_page, slug@, id),
{
    let mut v = trim_end_char(chars_of(base_url).as_slice(), '/');
    push_str(&mut v, "/");
    let route = trim_char(chars_of(route_fragment).as_slice(), '/');
    push_all(&mut v, route.as_slice());
    push_str(&mut v, "/");
    push_str(&mut v, if is_event_page {
        "wydarzenie"
    } else {
        "filmy"
    });
    push_str(&mut v, "/");
    push_str(&mut v, slug);
    push_str(&mut v, "-");
    let d = u64_to_decimal(id as u64);
    push_all(&mut v, d.as_slice());
    string_of(v.as_slice())
}

/// Dolby Atmos sound: the sound type `ATM` (case aside) or a print release that mentions
/// `ATMOS`.
pub open spec fn has_atmos_spec(sound_type: Seq<char>, print_release: Seq<char>) -> bool {
    lower_seq(sound_type) == lower_seq("ATM"@) || contains_seq(upper_seq(print_release), "ATMOS"@)
}

pub fn has_atmos(movie_print: &HeliosMoviePrint) -> (r: bool)
    ensures
        r == has_atmos_spec(movie_print.sound_type@, movie_print.print_release@),
{
    let sound = to_ascii_lowercase(chars_of(movie_print.sound_type.as_str()).as_slice());
    let atm = to_ascii_lowercase(chars_of("ATM").as_slice());
    if chars_eq(sound.as_slice(), atm.as_slice()) {
        return true;
    }
    let release = to_ascii_uppercase(chars_of(movie_print.print_release.as_str()).as_slice());
    contains_str(release.as_slice(), "ATMOS")
}

/// Some part equals `p` with ASCII case ignored.
pub open spec fn has_part(parts: Seq<Seq<char>>, p: Seq<char>) -> bool {
    exists|i: int| 0 <= i < parts.len() && lower_seq(parts[i]) == lower_seq(p)
}

/// The parts of a format: `IMAX` for an IMAX screen or movie, `Dream` for a Dream screen, the
/// print type unless already there, and `Atmos` for Atmos sound unless already there.
pub open spec fn format_parts(is_imax: bool, feature_text: Seq<char>, print_type_text: Seq<char>, print_release: Seq<char>, sound_type: Seq<char>) -> Seq<Seq<char>> {
    let feature = lower_seq(trim_seq(feature_text));
    let p1: Seq<Seq<char>> = if contains_seq(feature, "imax"@) || is_imax {
        seq!["IMAX"@]
    } else {
        Seq::empty()
    };
    let p2 = if contains_seq(feature, "dream"@) {
        p1.push("Dream"@)
    } else {
        p1
    };
    let print_type = trim_seq(print_type_text);
    let p3 = if print_type.len() > 0 && !has_part(p2, print_type) {
        p2.push(print_type)
    } else {
        p2
    };
    if has_atmos_spec(sound_type, print_release) && !has_part(p3, "Atmos"@) {
        p3.push("Atmos"@)
    } else {
        p3
    }
}

/// The format of a screening: its parts joined with spaces, or the missing-data label.
pub open spec fn format_spec(is_imax: bool, feature: Seq<char>, print_type: Seq<char>, print_release: Seq<char>, sound_type: Seq<char>) -> Seq<char> {
    let parts = format_parts(is_imax, feature, print_type, print_release, sound_type);
    if parts.len() == 0 {
        MISSING_DATA_LABEL@
    } else {
        crate::text::join_seq(parts, " "@)
    }
}

fn has_part_exec(parts: &Vec<Vec<char>>, p: &[char]) -> (r: bool)
    ensures
        r == has_part(crate::text::views_of(parts@), p@),
{
    let lp = to_ascii_lowercase(p);
    let mut i: usize = 0;
    while i < parts.len()
        invariant
            i <= parts@.len(),
            lp@ == lower_seq(p@),
            forall|j: int| 0 <= j < i ==> lower_seq(crate::text::views_of(parts@)[j]) != lower_seq(p@),
        decreases parts.len() - i,
    {
        let lq = to_ascii_lowercase(parts[i].as_slice());
        assert(crate::text::views_of(parts@)[i as int] == parts@[i as int]@);
        if chars_eq(lq.as_slice(), lp.as_slice()) {
            return true;
        }
        i = i + 1;
    }
    false
}

pub fn build_format(is_imax: bool, cinema_screen: &HeliosCinemaScreen, movie_print: &HeliosMoviePrint) -> (r: String)
    ensures
        r@ == format_spec(is_imax, cinema_screen.feature@, movie_print.print_type@, movie_print.print_release@, movie_print.sound_type@),
{
    let mut parts: Vec<Vec<char>> = Vec::new();
    let feature = to_ascii_lowercase(trim(chars_of(cinema_screen.feature.as_str()).as_slice()).as_slice());
    let ghost fl = lower_seq(trim_seq(cinema_screen.feature@));
    let ghost p1: Seq<Seq<char>> = if contains_seq(fl, "imax"@) || is_imax {
        seq!["IMAX"@]
    } else {
        Seq::empty()
    };
    if contains_str(feature.as_slice(), "imax") || is_imax {
        parts.push(chars_of("IMAX"));
    }
    assert(crate::text::views_of(parts@) =~= p1);
    let ghost p2 = if contains_seq(fl, "dream"@) {
        p1.push("Dream"@)
    } else {
        p1
    };
    if contains_str(feature.as_slice(), "dream") {
        parts.push(chars_of("Dream"));
    }
    assert(crate::text::views_of(parts@) =~= p2);
    let print_type = trim(chars_of(movie_print.print_type.as_str()).as_slice());
    let ghost pt = trim_seq(movie_print.print_type@);
    let ghost p3 = if pt.len() > 0 && !has_part(p2, pt) {
        p2.push(pt)
    } else {
        p2
    };
    if print_type.len() > 0 && !has_part_exec(&parts, print_type.as_slice()) {
        parts.push(print_type);
    }
    assert(crate::text::views_of(parts@) =~= p3);
    let atmos = chars_of("Atmos");
    if has_atmos(movie_print) && !has_part_exec(&parts, atmos.as_slice()) {
        parts.push(atmos);
    }
    proof {
        assert(crate::text::views_of(parts@) =~= format_parts(is_imax, cinema_screen.feature@, movie_print.print_type@, movie_print.print_release@, movie_print.sound_type@));
    }
    if parts.len() == 0 {
        return MISSING_DATA_LABEL.to_owned();
    }
    let sep = chars_of(" ");
    string_of(crate::text::join(&parts, sep.as_slice()).as_slice())
}

/// The time of a screening: bytes 11 to 16 of its start (`YYYY-MM-DD HH:MM:SS`).
pub fn extract_showtime_value(time_from: &str) -> (r: Option<String>)
    ensures
        opt_view(r) == byte_slice_spec(time_from@, 11, 16),
{
    match byte_slice(chars_of(time_from).as_slice(), 11, 16) {
        Some(v) => Some(string_of(v.as_slice())),
        None => None,
    }
}

/// The ticket page of a screening, with the repertoire page to come back to.
pub open spec fn booking_url_spec(repertoire_url: Seq<char>, screening_source_id: Seq<char>, cinema_source_id: Seq<char>, item_source_id: Seq<char>, item_id: u32) -> Seq<char> {
    "https://bilety.helios.pl/screen/"@ + screening_source_id + "?cinemaId="@ + cinema_source_id + "&backUrl="@
        + encoded_bytes(utf8_text(repertoire_url)) + "&item_id="@ + item_source_id + "&item_source_id="@ + decimal_seq(item_id as nat)
}

pub fn build_booking_url(repertoire_url: &str, screening_source_id: &str, cinema_source_id: &str, item_source_id: &str, item_id: u32) -> (r: String)
    ensures
        r@ == booking_url_spec(repertoire_url@, screening_source_id@, cinema_source_id@, item_source_id@, item_id),
{
    let mut v = chars_of("https://bilety.helios.pl/screen/");
    push_str(&mut v, screening_source_id);
    push_str(&mut v, "?cinemaId=");
    push_str(&mut v, cinema_source_id);
    push_str(&mut v, "&backUrl=");
    let encoded = percent_encode_query_value(repertoire_url);
    push_str(&mut v, encoded.as_str());
    push_str(&mut v, "&item_id=");
    push_str(&mut v, item_source_id);
    push_str(&mut v, "&item_source_id=");
    let d = u64_to_decimal(item_id as u64);
    push_all(&mut v, d.as_slice());
    string_of(v.as_slice())
}

/// The language of a screening: the print's speaking label unless blank, else the
/// missing-data label.
pub open spec fn language_spec(p: HeliosMoviePrint) -> Seq<char> {
    match p.speaking_type_label {
        Some(l) => if blank(l@) {
            MISSING_DATA_LABEL@
        } else {
            l@
        },
        None => MISSING_DATA_LABEL@,
    }
}

/// The showing of one screening, in sorted position: its format, language and time with
/// its booking link, when its start has a time.
pub open spec fn screening_item(
    s: HeliosDayScreening,
    repertoire_url: Seq<char>,
    item_source_id: Seq<char>,
    item_id: u32,
    is_imax: bool,
) -> Option<(Seq<char>, Seq<char>, TimeView)> {
    match byte_slice_spec(s.time_from@, 11, 16) {
        None => None,
        Some(value) => Some(
            (
                screening_format(s, is_imax),
                screening_language(s),
                (value, Some(booking_url_spec(repertoire_url, s.source_id@, s.cinema_source_id@, item_source_id, item_id))),
            ),
        ),
    }
}

/// The format of a screening, from its effective print (an empty print when it has none).
pub open spec fn screening_format(s: HeliosDayScreening, is_imax: bool) -> Seq<char> {
    match effective_print_spec(s) {
        Some(p) => format_spec(is_imax, s.cinema_screen.feature@, p.print_type@, p.print_release@, p.sound_type@),
        None => format_spec(is_imax, s.cinema_screen.feature@, Seq::empty(), Seq::empty(), Seq::empty()),
    }
}

pub open spec fn screening_language(s: HeliosDayScreening) -> Seq<char> {
    match effective_print_spec(s) {
        Some(p) => language_spec(p),
        None => MISSING_DATA_LABEL@,
    }
}

/// A screening is listed under the language its print speaks: the speaking-type label of
/// its effective print when that label is present and not blank, and the missing-data label
/// only when it is absent or blank. The same language goes with the screening's showing.
pub proof fn lemma_screening_language_is_label(
    s: HeliosDayScreening,
    repertoire_url: Seq<char>,
    item_source_id: Seq<char>,
    item_id: u32,
    is_imax: bool,
)
    ensures
        match effective_print_spec(s) {
            Some(p) => match p.speaking_type_label {
                Some(l) => if trim_seq(l@).len() > 0 {
                    screening_language(s) == l@
                } else {
                    screening_language(s) == MISSING_DATA_LABEL@
                },
                None => screening_language(s) == MISSING_DATA_LABEL@,
            },
            None => screening_language(s) == MISSING_DATA_LABEL@,
        },
        screening_item(s, repertoire_url, item_source_id, item_id, is_imax) matches Some(it) ==> it.1 == screening_language(s),
{
}

pub open spec fn screening_keys(screenings: Seq<HeliosDayScreening>) -> Seq<Seq<char>> {
    screenings.map_values(|s: HeliosDayScreening| s.time_from@)
}

/// The showings of the screenings in the order of their start, those without a time left out.
pub open spec fn screening_items(
    screenings: Seq<HeliosDayScreening>,
    order: Seq<int>,
    repertoire_url: Seq<char>,
    item_source_id: Seq<char>,
    item_id: u32,
    is_imax: bool,
) -> Seq<(Seq<char>, Seq<char>, TimeView)>
    decreases order.len(),
{
    if order.len() == 0 {
        Seq::empty()
    } else {
        let pre = screening_items(screenings, order.drop_last(), repertoire_url, item_source_id, item_id, is_imax);
        match screening_item(screenings[order.last()], repertoire_url, item_source_id, item_id, is_imax) {
            Some(it) => pre.push(it),
            None => pre,
        }
    }
}

/// The screenings' showings grouped by format and language, in the order of their start.
pub open spec fn play_details_spec(
    screenings: Seq<HeliosDayScreening>,
    repertoire_url: Seq<char>,
    item_source_id: Seq<char>,
    item_id: u32,
    is_imax: bool,
) -> Seq<(Seq<char>, Seq<char>, Seq<TimeView>)> {
    group_showings(
        screening_items(screenings, text_order_of(screening_keys(screenings)), repertoire_url, item_source_id, item_id, is_imax),
    )
}

fn screening_language_of(print: &HeliosMoviePrint) -> (r: String)
    ensures
        r@ == language_spec(*print),
{
    match &print.speaking_type_label {
        Some(l) => if trim(chars_of(l.as_str()).as_slice()).len() == 0 {
            MISSING_DATA_LABEL.to_owned()
        } else {
            l.clone()
        },
        None => MISSING_DATA_LABEL.to_owned(),
    }
}

/// The showings of an item's screenings: sorted by start, grouped by format and language.
pub fn build_play_details(
    screenings: &Vec<HeliosDayScreening>,
    repertoire_url: &str,
    item_source_id: &str,
    item_id: u32,
    is_imax: bool,
) -> (r: Vec<MoviePlayDetails>)
    ensures
        details_views(r@) == play_details_spec(screenings@, repertoire_url@, item_source_id@, item_id, is_imax),
{
    let mut keys: Vec<Vec<char>> = Vec::new();
    let mut i: usize = 0;
    while i < screenings.len()
        invariant
            i <= screenings@.len(),
            key_views(keys@) == screening_keys(screenings@).subrange(0, i as int),
        decreases screenings.len() - i,
    {
        let ghost before = key_views(keys@);
        keys.push(chars_of(screenings[i].time_from.as_str()));
        assert(key_views(keys@) =~= before.push(screenings@[i as int].time_from@));
        assert(screening_keys(screenings@).subrange(0, i + 1) =~= screening_keys(screenings@).subrange(0, i as int).push(screenings@[i as int].time_from@));
        i = i + 1;
    }
    assert(screening_keys(screenings@).subrange(0, screenings@.len() as int) =~= screening_keys(screenings@));
    let order = stable_text_order(&keys);
    let ghost ord = index_ints(order@);
    let mut details: Vec<MoviePlayDetails> = Vec::new();
    let mut k: usize = 0;
    assert(details_views(details@) =~= group_showings(screening_items(screenings@, ord.subrange(0, 0), repertoire_url@, item_source_id@, item_id, is_imax)));
    while k < order.len()
        invariant
            k <= order@.len(),
            ord == index_ints(order@),
            ord == text_order_of(screening_keys(screenings@)),
            crate::ordering::is_text_order(ord, screening_keys(screenings@)),
            details_views(details@) == group_showings(screening_items(screenings@, ord.subrange(0, k as int), repertoire_url@, item_source_id@, item_id, is_imax)),
            groups_distinct(details_views(details@)),
        decreases order.len() - k,
    {
        let ghost pre = ord.subrange(0, k as int);
        assert(ord.subrange(0, k + 1).drop_last() =~= pre);
        assert(ord[k as int] == order@[k as int] as int);
        assert(0 <= ord[k as int] < screenings@.len());
        let s = &screenings[order[k]];
        let ghost items_pre = screening_items(screenings@, pre, repertoire_url@, item_source_id@, item_id, is_imax);
        assert(screenings@[ord[k as int]] == *s);
        match extract_showtime_value(s.time_from.as_str()) {
            None => {
                assert(screening_item(*s, repertoire_url@, item_source_id@, item_id, is_imax) is None);
                assert(screening_items(screenings@, ord.subrange(0, k + 1), repertoire_url@, item_source_id@, item_id, is_imax) == items_pre);
            },
            Some(value) => {
                let print = s.effective_movie_print();
                let format = build_format(is_imax, &s.cinema_screen, &print);
                let language = screening_language_of(&print);
                let url = build_booking_url(repertoire_url, s.source_id.as_str(), s.cinema_source_id.as_str(), item_source_id, item_id);
                proof {
                    match effective_print_spec(*s) {
                        Some(p) => {},
                        None => {
                            assert(print.print_type@ =~= Seq::<char>::empty());
                            assert(print.print_release@ =~= Seq::<char>::empty());
                            assert(print.sound_type@ =~= Seq::<char>::empty());
                        },
                    }
                }
                let ghost it = (format@, language@, (value@, Some(url@)));
                assert(screening_item(*s, repertoire_url@, item_source_id@, item_id, is_imax) == Some(it));
                assert(screening_items(screenings@, ord.subrange(0, k + 1), repertoire_url@, item_source_id@, item_id, is_imax) == items_pre.push(it));
                assert(items_pre.push(it).drop_last() =~= items_pre);
                let time = MoviePlayTime { value, url: Some(url) };
                add_showing(&mut details, format, language, time);
            },
        }
        k = k + 1;
    }
    assert(ord.subrange(0, ord.len() as int) =~= ord);
    details
}

pub open spec fn named_views(gs: Seq<HeliosNamedValue>) -> Seq<Seq<char>> {
    gs.map_values(|g: HeliosNamedValue| g.name@)
}

fn genre_names(gs: &Vec<HeliosNamedValue>) -> (r: Vec<String>)
    ensures
        string_views(r@) == named_views(gs@),
{
    let mut out: Vec<String> = Vec::new();
    let mut i: usize = 0;
    while i < gs.len()
        invariant
            i <= gs@.len(),
            string_views(out@) == named_views(gs@).subrange(0, i as int),
        decreases gs.len() - i,
    {
        let ghost before = string_views(out@);
        out.push(gs[i].name.clone());
        assert(string_views(out@) =~= before.push(gs@[i as int].name@));
        assert(named_views(gs@).subrange(0, i + 1) =~= named_views(gs@).subrange(0, i as int).push(gs@[i as int].name@));
        i = i + 1;
    }
    assert(named_views(gs@).subrange(0, gs@.len() as int) =~= named_views(gs@));
    out
}

fn clone_opt(v: &Option<String>) -> (r: Option<String>)
    ensures
        r == *v,
{
    match v {
        Some(s) => Some(s.clone()),
        None => None,
    }
}

/// What is shown for an item: id, source id, title, length and genres.
pub type DisplayView = (u32, Seq<char>, Seq<char>, Option<u16>, Seq<Seq<char>>);

/// What an item is looked up by: id, source id, title, original title, slug, length, genres,
/// premiere, cinema premiere, IMAX, and whether its page is an event page.
pub type LookupView = (u32, Seq<char>, Seq<char>, Option<Seq<char>>, Seq<char>, Option<u16>, Seq<Seq<char>>, Option<Seq<char>>, Option<Seq<char>>, bool, bool);

pub struct HeliosDisplaySource {
    pub id: u32,
    pub source_id: String,
    pub title: String,
    pub duration: Option<u16>,
    pub genres: Vec<String>,
}

pub struct HeliosLookupSource {
    pub id: u32,
    pub source_id: String,
    pub title: String,
    pub title_original: Option<String>,
    pub slug: String,
    pub duration: Option<u16>,
    pub genres: Vec<String>,
    pub premiere_date: Option<String>,
    pub cinema_premiere_date: Option<String>,
    pub is_imax: bool,
    pub is_event_page: bool,
}

pub open spec fn display_view(d: HeliosDisplaySource) -> DisplayView {
    (d.id, d.source_id@, d.title@, d.duration, string_views(d.genres@))
}

pub open spec fn lookup_view(l: HeliosLookupSource) -> LookupView {
    (
        l.id,
        l.source_id@,
        l.title@,
        opt_view(l.title_original),
        l.slug@,
        l.duration,
        string_views(l.genres@),
        opt_view(l.premiere_date),
        opt_view(l.cinema_premiere_date),
        l.is_imax,
        l.is_event_page,
    )
}

pub open spec fn item_display(item: HeliosCatalogItem) -> DisplayView {
    (item.id, item.source_id@, item.title@, item.duration, named_views(item.genres@))
}

pub open spec fn event_display(e: HeliosEventInfo) -> DisplayView {
    (e.id, e.source_id@, e.name@, e.duration, named_views(e.genres@))
}

pub open spec fn item_lookup(item: HeliosCatalogItem) -> LookupView {
    (
        item.id,
        item.source_id@,
        item.title@,
        opt_view(item.title_original),
        item.slug@,
        item.duration,
        named_views(item.genres@),
        opt_view(item.premiere_date),
        opt_view(item.cinema_premiere_date),
        item.is_imax,
        item.is_event,
    )
}

pub open spec fn event_lookup(e: HeliosEventInfo) -> LookupView {
    (e.id, e.source_id@, e.name@, None, e.slug@, e.duration, named_views(e.genres@), None, None, e.is_imax, true)
}

pub open spec fn movie_lookup(m: HeliosNestedMovie) -> LookupView {
    (
        m.id,
        m.source_id@,
        m.title@,
        opt_view(m.title_original),
        m.slug@,
        m.duration,
        named_views(m.genres@),
        opt_view(m.premiere_date),
        opt_view(m.cinema_premiere_date),
        m.is_imax,
        false,
    )
}

/// What is shown for a catalog item: for an event, its first screening's event when there is
/// one; the item itself otherwise.
pub open spec fn display_spec(item: HeliosCatalogItem, entry: HeliosDateEntry) -> DisplayView {
    if item.is_event {
        match first_event_spec(entry.screenings@) {
            Some(e) => event_display(e),
            None => item_display(item),
        }
    } else {
        item_display(item)
    }
}

/// What a catalog item is looked up by: for an event, the first movie it screens, else its
/// first event, else the item; for a movie, the item itself.
pub open spec fn lookup_spec(item: HeliosCatalogItem, entry: HeliosDateEntry) -> LookupView {
    if item.is_event {
        match first_movie_spec(entry.screenings@) {
            Some(m) => movie_lookup(m),
            None => match first_event_spec(entry.screenings@) {
                Some(e) => event_lookup(e),
                None => item_lookup(item),
            },
        }
    } else {
        item_lookup(item)
    }
}

fn display_from_item(item: &HeliosCatalogItem) -> (r: HeliosDisplaySource)
    ensures
        display_view(r) == item_display(*item),
{
    HeliosDisplaySource { id: item.id, source_id: item.source_id.clone(), title: item.title.clone(), duration: item.duration, genres: genre_names(&item.genres) }
}

fn display_from_event(e: &HeliosEventInfo) -> (r: HeliosDisplaySource)
    ensures
        display_view(r) == event_display(*e),
{
    HeliosDisplaySource { id: e.id, source_id: e.source_id.clone(), title: e.name.clone(), duration: e.duration, genres: genre_names(&e.genres) }
}

fn lookup_from_item(item: &HeliosCatalogItem) -> (r: HeliosLookupSource)
    ensures
        lookup_view(r) == item_lookup(*item),
{
    HeliosLookupSource {
        id: item.id,
        source_id: item.source_id.clone(),
        title: item.title.clone(),
        title_original: clone_opt(&item.title_original),
        slug: item.slug.clone(),
        duration: item.duration,
        genres: genre_names(&item.genres),
        premiere_date: clone_opt(&item.premiere_date),
        cinema_premiere_date: clone_opt(&item.cinema_premiere_date),
        is_imax: item.is_imax,
        is_event_page: item.is_event,
    }
}

fn lookup_from_event(e: &HeliosEventInfo) -> (r: HeliosLookupSource)
    ensures
        lookup_view(r) == event_lookup(*e),
{
    HeliosLookupSource {
        id: e.id,
        source_id: e.source_id.clone(),
        title: e.name.clone(),
        title_original: None,
        slug: e.slug.clone(),
        duration: e.duration,
        genres: genre_names(&e.genres),
        premiere_date: None,
        cinema_premiere_date: None,
        is_imax: e.is_imax,
        is_event_page: true,
    }
}

fn lookup_from_movie(m: &HeliosNestedMovie) -> (r: HeliosLookupSource)
    ensures
        lookup_view(r) == movie_lookup(*m),
{
    HeliosLookupSource {
        id: m.id,
        source_id: m.source_id.clone(),
        title: m.title.clone(),
        title_original: clone_opt(&m.title_original),
        slug: m.slug.clone(),
        duration: m.duration,
        genres: genre_names(&m.genres),
        premiere_date: clone_opt(&m.premiere_date),
        cinema_premiere_date: clone_opt(&m.cinema_premiere_date),
        is_imax: m.is_imax,
        is_event_page: false,
    }
}

/// `alternates` with `candidate` (trimmed) added, unless it is blank or, in comparison form,
/// the same as the base title or an alternate already there.
pub open spec fn add_alternate(alternates: Seq<Seq<char>>, base_title: Seq<char>, candidate: Option<Seq<char>>) -> Seq<Seq<char>> {
    match candidate {
        None => alternates,
        Some(c) => {
            let t = trim_seq(c);
            let n = lookup_text_spec(t);
            if t.len() == 0 || n.len() == 0 || lookup_text_spec(base_title) == n || exists|i: int|
                0 <= i < alternates.len() && lookup_text_spec(#[trigger] alternates[i]) == n {
                alternates
            } else {
                alternates.push(t)
            }
        },
    }
}

pub fn push_alternate_title(alternate_titles: &mut Vec<String>, base_title: &str, candidate: Option<&str>)
    ensures
        string_views(final(alternate_titles)@) == add_alternate(string_views(old(alternate_titles)@), base_title@, match candidate {
            Some(c) => Some(c@),
            None => None,
        }),
{
    let c = match candidate {
        Some(c) => c,
        None => return,
    };
    let t = trim(chars_of(c).as_slice());
    if t.len() == 0 {
        return;
    }
    let n = crate::common::normalize_lookup_chars(t.as_slice());
    if n.len() == 0 {
        return;
    }
    let base = crate::common::normalize_lookup_chars(chars_of(base_title).as_slice());
    if chars_eq(base.as_slice(), n.as_slice()) {
        return;
    }
    let ghost alts = string_views(alternate_titles@);
    let mut i: usize = 0;
    while i < alternate_titles.len()
        invariant
            i <= alternate_titles@.len(),
            alts == string_views(alternate_titles@),
            alts == string_views(old(alternate_titles)@),
            candidate == Some(c),
            t@ == trim_seq(c@),
            t@.len() > 0,
            n@ == lookup_text_spec(trim_seq(c@)),
            forall|j: int| 0 <= j < i ==> lookup_text_spec(#[trigger] alts[j]) != n@,
        decreases alternate_titles.len() - i,
    {
        let e = crate::common::normalize_lookup_chars(chars_of(alternate_titles[i].as_str()).as_slice());
        assert(alts[i as int] == alternate_titles@[i as int]@);
        if chars_eq(e.as_slice(), n.as_slice()) {
            assert(lookup_text_spec(alts[i as int]) == n@);
            return;
        }
        i = i + 1;
    }
    alternate_titles.push(string_of(t.as_slice()));
    assert(string_views(alternate_titles@) =~= alts.push(trim_seq(c@)));
}

/// The lookup metadata of an item.
pub open spec fn helios_metadata_spec(d: DisplayView, l: LookupView, base_url: Seq<char>, route_fragment: Seq<char>) -> MetadataView {
    (
        Some(l.1),
        Some(item_page_url_spec(base_url, route_fragment, l.10, l.4, l.0)),
        add_alternate(add_alternate(Seq::empty(), d.2, Some(l.2)), d.2, l.3),
        l.5,
        None,
        genre_tags_spec(l.6),
        match l.7 {
            Some(p) => year_prefix_spec(p),
            None => None,
        },
        match l.8 {
            Some(c) => Some(c),
            None => l.7,
        },
    )
}

pub fn build_lookup_metadata(
    display_source: &HeliosDisplaySource,
    lookup_source: &HeliosLookupSource,
    base_url: &str,
    route_fragment: &str,
) -> (r: MovieLookupMetadata)
    ensures
        metadata_view(r) == helios_metadata_spec(display_view(*display_source), lookup_view(*lookup_source), base_url@, route_fragment@),
{
    let mut alternate_titles: Vec<String> = Vec::new();
    assert(string_views(alternate_titles@) =~= Seq::<Seq<char>>::empty());
    push_alternate_title(&mut alternate_titles, display_source.title.as_str(), Some(lookup_source.title.as_str()));
    let original = match &lookup_source.title_original {
        Some(t) => Some(t.as_str()),
        None => None,
    };
    push_alternate_title(&mut alternate_titles, display_source.title.as_str(), original);
    let production_year = match &lookup_source.premiere_date {
        Some(p) => parse_year_from_date(p.as_str()),
        None => None,
    };
    let polish_premiere_date = match &lookup_source.cinema_premiere_date {
        Some(c) => Some(c.clone()),
        None => clone_opt(&lookup_source.premiere_date),
    };
    MovieLookupMetadata {
        chain_movie_id: Some(lookup_source.source_id.clone()),
        movie_page_url: Some(build_item_page_url(base_url, route_fragment, lookup_source.is_event_page, lookup_source.slug.as_str(), lookup_source.id)),
        alternate_titles,
        runtime_minutes: lookup_source.duration,
        original_language_code: None,
        genre_tags: normalize_genre_tags(&lookup_source.genres),
        production_year,
        polish_premiere_date,
    }
}

/// The text of a running time in minutes.
pub open spec fn minutes_text(duration: Option<u16>) -> Seq<char> {
    match duration {
        Some(d) => decimal_seq(d as nat) + " min"@,
        None => MISSING_DATA_LABEL@,
    }
}

fn render_minutes(duration: Option<u16>) -> (r: String)
    ensures
        r@ == minutes_text(duration),
{
    match duration {
        Some(d) => {
            let mut v = u64_to_decimal(d as u64);
            push_str(&mut v, " min");
            string_of(v.as_slice())
        },
        None => MISSING_DATA_LABEL.to_owned(),
    }
}

/// The entry stored under `key` (the first one; keys are distinct).
pub open spec fn keyed<T>(entries: Seq<(String, T)>, key: Seq<char>) -> Option<T>
    decreases entries.len(),
{
    if entries.len() == 0 {
        None
    } else if entries[0].0@ == key {
        Some(entries[0].1)
    } else {
        keyed(entries.drop_first(), key)
    }
}

fn find_keyed<'a, T>(entries: &'a Vec<(String, T)>, key: &str) -> (r: Option<&'a T>)
    ensures
        match r {
            Some(v) => keyed(entries@, key@) == Some(*v),
            None => keyed(entries@, key@) is None,
        },
{
    let mut i: usize = 0;
    assert(entries@.subrange(0, entries@.len() as int) =~= entries@);
    while i < entries.len()
        invariant
            i <= entries@.len(),
            keyed(entries@, key@) == keyed(entries@.subrange(i as int, entries@.len() as int), key@),
        decreases entries.len() - i,
    {
        let ghost rest = entries@.subrange(i as int, entries@.len() as int);
        assert(rest[0] == entries@[i as int]);
        if eq_str(chars_of(entries[i].0.as_str()).as_slice(), key) {
            return Some(&entries[i].1);
        }
        assert(rest.drop_first() =~= entries@.subrange(i + 1, entries@.len() as int));
        i = i + 1;
    }
    None
}

/// The repertoire entry of one catalog item, when it has screenings with times that day.
pub open spec fn helios_movie_spec(
    item: HeliosCatalogItem,
    entries: Seq<(String, HeliosDateEntry)>,
    base_url: Seq<char>,
    route_fragment: Seq<char>,
    repertoire_url: Seq<char>,
) -> Option<RepertoireView> {
    match keyed(entries, entry_key_spec(item)) {
        None => None,
        Some(entry) => if entry.screenings@.len() == 0 {
            None
        } else {
            let d = display_spec(item, entry);
            let l = lookup_spec(item, entry);
            let pd = play_details_spec(entry.screenings@, repertoire_url, d.1, d.0, l.9);
            if pd.len() == 0 {
                None
            } else {
                Some((d.2, joined_or_missing(d.4), minutes_text(d.3), MISSING_DATA_LABEL@, pd, helios_metadata_spec(d, l, base_url, route_fragment)))
            }
        },
    }
}

pub open spec fn helios_movies_spec(
    list: Seq<HeliosCatalogItem>,
    entries: Seq<(String, HeliosDateEntry)>,
    base_url: Seq<char>,
    route_fragment: Seq<char>,
    repertoire_url: Seq<char>,
) -> Seq<RepertoireView>
    decreases list.len(),
{
    if list.len() == 0 {
        Seq::empty()
    } else {
        let pre = helios_movies_spec(list.drop_last(), entries, base_url, route_fragment, repertoire_url);
        match helios_movie_spec(list.last(), entries, base_url, route_fragment, repertoire_url) {
            Some(v) => pre.push(v),
            None => pre,
        }
    }
}

/// The repertoire of a date: the catalog's items, in catalog order, that have screenings with
/// times that day.
pub open spec fn helios_repertoire_spec(
    date: Seq<char>,
    base_url: Seq<char>,
    route_fragment: Seq<char>,
    repertoire_url: Seq<char>,
    state: HeliosRepertoireState,
) -> Seq<RepertoireView> {
    match keyed(state.screenings@, date) {
        None => Seq::empty(),
        Some(entries) => helios_movies_spec(state.list@, entries@, base_url, route_fragment, repertoire_url),
    }
}

fn parse_movie(
    item: &HeliosCatalogItem,
    entries: &Vec<(String, HeliosDateEntry)>,
    base_url: &str,
    route_fragment: &str,
    repertoire_url: &str,
) -> (r: Option<Repertoire>)
    ensures
        match r {
            Some(m) => helios_movie_spec(*item, entries@, base_url@, route_fragment@, repertoire_url@) == Some(repertoire_view(m)),
            None => helios_movie_spec(*item, entries@, base_url@, route_fragment@, repertoire_url@) is None,
        },
{
    let key = entry_key_for(item);
    let entry = match find_keyed(entries, key.as_str()) {
        Some(e) => e,
        None => return None,
    };
    if entry.screenings.len() == 0 {
        return None;
    }
    let display = if item.is_event {
        match entry.first_event() {
            Some(e) => display_from_event(e),
            None => display_from_item(item),
        }
    } else {
        display_from_item(item)
    };
    let lookup = if item.is_event {
        match entry.first_underlying_movie() {
            Some(m) => lookup_from_movie(m),
            None => match entry.first_event() {
                Some(e) => lookup_from_event(e),
                None => lookup_from_item(item),
            },
        }
    } else {
        lookup_from_item(item)
    };
    let play_details = build_play_details(&entry.screenings, repertoire_url, display.source_id.as_str(), display.id, lookup.is_imax);
    if play_details.len() == 0 {
        return None;
    }
    let genres = join_or_missing(&display.genres);
    let play_length = render_minutes(display.duration);
    let lookup_metadata = build_lookup_metadata(&display, &lookup, base_url, route_fragment);
    Some(Repertoire {
        title: display.title,
        genres,
        play_length,
        original_language: MISSING_DATA_LABEL.to_owned(),
        play_details,
        lookup_metadata,
    })
}

impl Helios {
    /// The repertoire of `date` from the page state, for the cinema at `route_fragment`.
    pub fn parse_repertoire(
        date: &str,
        base_url: &str,
        route_fragment: &str,
        repertoire_url: &str,
        repertoire_state: &HeliosRepertoireState,
    ) -> (r: Vec<Repertoire>)
        ensures
            repertoire_views(r@) == helios_repertoire_spec(date@, base_url@, route_fragment@, repertoire_url@, *repertoire_state),
    {
        let entries = match find_keyed(&repertoire_state.screenings, date) {
            Some(e) => e,
            None => {
                let empty: Vec<Repertoire> = Vec::new();
                assert(repertoire_views(empty@) =~= Seq::<RepertoireView>::empty());
                return empty;
            },
        };
        let list = &repertoire_state.list;
        let mut out: Vec<Repertoire> = Vec::new();
        let mut i: usize = 0;
        while i < list.len()
            invariant
                i <= list@.len(),
                list == &repertoire_state.list,
                keyed(repertoire_state.screenings@, date@) == Some(*entries),
                repertoire_views(out@) == helios_movies_spec(list@.subrange(0, i as int), entries@, base_url@, route_fragment@, repertoire_url@),
            decreases list.len() - i,
        {
            assert(list@.subrange(0, i + 1).drop_last() =~= list@.subrange(0, i as int));
            assert(list@.subrange(0, i + 1).last() == list@[i as int]);
            match parse_movie(&list[i], entries, base_url, route_fragment, repertoire_url) {
                Some(m) => {
                    let ghost before = repertoire_views(out@);
                    out.push(m);
                    assert(repertoire_views(out@) =~= before.push(repertoire_view(m)));
                },
                None => {},
            }
            i = i + 1;
        }
        assert(list@.subrange(0, list@.len() as int) =~= list@);
        out
    }
}

/// An element of the home page as the venue list reads it: its HTML, its text, and its
/// requested attributes (here only `href`).
pub type ElementView = (Seq<char>, Seq<char>, Seq<Option<Seq<char>>>);

/// The venue id a link carries: its `href`, trimmed, without slashes at either end, when
/// that leaves something.
pub open spec fn link_venue_id(e: ElementView) -> Option<Seq<char>> {
    if e.2.len() > 0 && e.2[0] is Some {
        let id = trim_char_seq(trim_seq(e.2[0]->0), '/');
        if id.len() > 0 { Some(id) } else { None }
    } else {
        None
    }
}

/// The name a link shows: its text with whitespace normalised, the screen names
/// "Sala Dream" and "Sala Imax" removed, and whitespace normalised again.
pub open spec fn venue_label_spec(text: Seq<char>) -> Seq<char> {
    normalize_ws_seq(replace_seq(replace_seq(normalized_text_spec(text), "Sala Dream"@, Seq::empty()), "Sala Imax"@, Seq::empty()))
}

/// Some link before position `n` carries the venue id `id`.
pub open spec fn id_seen_before(links: Seq<ElementView>, n: int, id: Seq<char>) -> bool {
    exists|j: int| 0 <= j < n && #[trigger] link_venue_id(links[j]) == Some(id)
}

/// The link at `n` is the first to carry its venue id.
pub open spec fn first_with_id(links: Seq<ElementView>, n: int) -> bool {
    &&& link_venue_id(links[n]) is Some
    &&& !id_seen_before(links, n, link_venue_id(links[n])->0)
}

/// The venues of the home page's links, as (id, name): a link counts when it is the first to
/// carry its id and shows a name.
pub open spec fn helios_venues_spec(links: Seq<ElementView>) -> Seq<(Seq<char>, Seq<char>)>
    decreases links.len(),
{
    if links.len() == 0 {
        Seq::empty()
    } else {
        let pre = helios_venues_spec(links.drop_last());
        let n = links.len() - 1;
        let name = venue_label_spec(links[n].1);
        if first_with_id(links, n) && name.len() > 0 {
            pre.push((link_venue_id(links[n])->0, name))
        } else {
            pre
        }
    }
}

pub open spec fn helios_venue_views(v: Seq<(Seq<char>, Seq<char>)>) -> Seq<(Seq<char>, Seq<char>, Seq<char>)> {
    Seq::new(v.len(), |i: int| ("helios"@, v[i].0, v[i].1))
}

proof fn lemma_venues_prefix(links: Seq<ElementView>, i: int)
    requires
        0 <= i < links.len(),
    ensures
        helios_venues_spec(links.subrange(0, i + 1)) == ({
            let pre = helios_venues_spec(links.subrange(0, i));
            let name = venue_label_spec(links[i].1);
            if first_with_id(links, i) && name.len() > 0 { pre.push((link_venue_id(links[i])->0, name)) } else { pre }
        }),
{
    let sub = links.subrange(0, i + 1);
    assert(sub.drop_last() =~= links.subrange(0, i));
    assert(sub[i] == links[i]);
    assert(first_with_id(sub, i) == first_with_id(links, i)) by {
        if link_venue_id(links[i]) is Some {
            let id = link_venue_id(links[i])->0;
            if id_seen_before(sub, i, id) {
                let j = choose|j: int| 0 <= j < i && #[trigger] link_venue_id(sub[j]) == Some(id);
                assert(sub[j] == links[j]);
            }
            if id_seen_before(links, i, id) {
                let j = choose|j: int| 0 <= j < i && #[trigger] link_venue_id(links[j]) == Some(id);
                assert(sub[j] == links[j]);
            }
        }
    }
}

/// The venue id of a link, computed.
fn venue_id_of(element: &ScrapedElement) -> (r: Option<Vec<char>>)
    ensures
        match r {
            Some(id) => link_venue_id(element.view_tuple()) == Some(id@),
            None => link_venue_id(element.view_tuple()) is None,
        },
{
    if element.attributes.len() == 0 {
        return None;
    }
    match &element.attributes[0] {
        None => None,
        Some(href) => {
            let t = trim(chars_of(href.as_str()).as_slice());
            let id = trim_char(t.as_slice(), '/');
            if id.len() > 0 { Some(id) } else { None }
        },
    }
}

/// The name a link shows, computed.
pub fn venue_label(text: &str) -> (r: Vec<char>)
    ensures
        r@ == venue_label_spec(text@),
{
    let normalized = normalized_text(text);
    let chars = chars_of(normalized.as_str());
    let dream = chars_of("Sala Dream");
    let imax = chars_of("Sala Imax");
    let empty: Vec<char> = Vec::new();
    proof {
        reveal_strlit("Sala Dream");
        reveal_strlit("Sala Imax");
    }
    let without_dream = replace(chars.as_slice(), dream.as_slice(), empty.as_slice());
    let without_imax = replace(without_dream.as_slice(), imax.as_slice(), empty.as_slice());
    proof {
        assert(empty@ =~= Seq::<char>::empty());
    }
    normalize_whitespace(without_imax.as_slice())
}

/// The Helios venues among the elements that the venue-link selector matched (each with its
/// `href` requested): each link that is the first to carry its venue id and shows a name.
pub fn venues_from_links(links: &Vec<ScrapedElement>) -> (r: Vec<CinemaVenue>)
    ensures
        venue_views(r@) == helios_venue_views(helios_venues_spec(scraped_views(links@))),
{
    let ghost views = scraped_views(links@);
    let mut seen: Vec<Vec<char>> = Vec::new();
    let mut out: Vec<CinemaVenue> = Vec::new();
    let mut i: usize = 0;
    proof {
        assert(views.subrange(0, 0) =~= Seq::<ElementView>::empty());
        assert(venue_views(out@) =~= helios_venue_views(helios_venues_spec(views.subrange(0, 0))));
    }
    while i < links.len()
        invariant
            i <= links@.len(),
            views == scraped_views(links@),
            views.len() == links@.len(),
            forall|id: Seq<char>| views_of(seen@).contains(id) == id_seen_before(views, i as int, id),
            venue_views(out@) == helios_venue_views(helios_venues_spec(views.subrange(0, i as int))),
        decreases links.len() - i,
    {
        proof {
            lemma_venues_prefix(views, i as int);
            assert(views[i as int] == links@[i as int].view_tuple());
        }
        let ghost before = views_of(seen@);
        assert(forall|id: Seq<char>| before.contains(id) == id_seen_before(views, i as int, id));
        match venue_id_of(&links[i]) {
            None => {
                proof {
                    assert forall|id: Seq<char>| views_of(seen@).contains(id) == id_seen_before(views, i + 1, id) by {
                        if id_seen_before(views, i + 1, id) {
                            let j = choose|j: int| 0 <= j < i + 1 && #[trigger] link_venue_id(views[j]) == Some(id);
                            assert(j != i);
                            assert(id_seen_before(views, i as int, id));
                        }
                        if id_seen_before(views, i as int, id) {
                            let j = choose|j: int| 0 <= j < i && #[trigger] link_venue_id(views[j]) == Some(id);
                            assert(0 <= j < i + 1);
                        }
                    }
                }
            },
            Some(id) => {
                let already = contains_word(&seen, id.as_slice());
                proof {
                    assert(first_with_id(views, i as int) == !already);
                }
                if !already {
                    seen.push(id.clone());
                }
                proof {
                    assert forall|x: Seq<char>| views_of(seen@).contains(x) == id_seen_before(views, i + 1, x) by {
                        if id_seen_before(views, i + 1, x) {
                            let j = choose|j: int| 0 <= j < i + 1 && #[trigger] link_venue_id(views[j]) == Some(x);
                            if j < i {
                                assert(id_seen_before(views, i as int, x));
                                assert(before.contains(x));
                                let k = choose|k: int| 0 <= k < before.len() && before[k] == x;
                                assert(views_of(seen@)[k] == x);
                            } else {
                                assert(x == id@);
                                if !already {
                                    assert(views_of(seen@)[before.len() as int] == x);
                                }
                            }
                        }
                        if views_of(seen@).contains(x) {
                            let k = choose|k: int| 0 <= k < views_of(seen@).len() && views_of(seen@)[k] == x;
                            if k < before.len() {
                                assert(before[k] == x);
                                assert(before.contains(x));
                                assert(id_seen_before(views, i as int, x));
                                let j = choose|j: int| 0 <= j < i && #[trigger] link_venue_id(views[j]) == Some(x);
                                assert(0 <= j < i + 1);
                            } else {
                                assert(x == id@);
                                assert(link_venue_id(views[i as int]) == Some(x));
                            }
                        }
                    }
                }
                if !already {
                    let name = venue_label(links[i].text.as_str());
                    if name.len() > 0 {
                        let ghost prev = venue_views(out@);
                        out.push(CinemaVenue {
                            chain_id: CinemaChainId::Helios.as_str().to_owned(),
                            venue_id: string_of(id.as_slice()),
                            venue_name: string_of(name.as_slice()),
                        });
                        proof {
                            reveal_strlit("helios");
                            assert(venue_views(out@) =~= prev.push(("helios"@, id@, name@)));
                        }
                    }
                }
            },
        }
        i = i + 1;
    }
    proof {
        assert(views.subrange(0, views.len() as int) =~= views);
    }
    out
}

impl Helios {
    /// The venues listed on the rendered home page.
    pub fn parse_venues(rendered_html: &str) -> (r: Vec<CinemaVenue>)
        ensures
            venue_views(r@) == helios_venue_views(helios_venues_spec(
                document_matches(rendered_html@, VENUE_LINK_SELECTOR@, seq!["href"@]))),
    {
        let names: Vec<&str> = vec!["href"];
        let links = select_in_document(rendered_html, VENUE_LINK_SELECTOR, &names);
        proof {
            assert(name_views(names@) =~= seq!["href"@]);
        }
        venues_from_links(&links)
    }
}
impl Helios {
    /// The repertoire page of the cinema at `route_fragment`, as its showings link back to it.
    pub fn repertoire_page_url(&self, route_fragment: &str) -> (r: String)
        ensures
            r@ == trim_end_char_seq(self.base_url@, '/') + "/"@ + route_fragment@ + "/repertuar"@,
    {
        let mut v = trim_end_char(chars_of(self.base_url.as_str()).as_slice(), '/');
        push_str(&mut v, "/");
        push_str(&mut v, route_fragment);
        push_str(&mut v, "/repertuar");
        string_of(v.as_slice())
    }
}

/// The error of a page script whose result is missing.
pub fn missing_evaluation_error(evaluation_name: &str) -> (r: crate::error::AppError)
    ensures
        r matches crate::error::AppError::BrowserUnavailable(m)
            && m@ == "Brak wyniku skryptu `"@ + evaluation_name@ + "` podczas odczytu danych Helios."@,
{
    let mut v = chars_of("Brak wyniku skryptu `");
    push_str(&mut v, evaluation_name);
    push_str(&mut v, "` podczas odczytu danych Helios.");
    crate::error::AppError::BrowserUnavailable(string_of(v.as_slice()))
}

/// The script that reads the repertoire state of a Helios page.
pub const REPERTOIRE_STATE_EXPRESSION: &'static str = "JSON.stringify(window.__NUXT__.state.repertoire)";

/// The script that reads which cinema a Helios page shows.
pub const CURRENT_CINEMA_EXPRESSION: &'static str = "JSON.stringify(window.__NUXT__.state.cinema || window.__NUXT__.state.core.current)";

impl Helios {
    /// The scripts a repertoire page is rendered with: its repertoire state, then its cinema.
    pub fn repertoire_evaluations() -> (r: Vec<crate::browser::BrowserEvaluation>)
        ensures
            r@.len() == 2,
            r@[0].name@ == REPERTOIRE_STATE_EVALUATION_NAME@ && r@[0].expression@ == REPERTOIRE_STATE_EXPRESSION@,
            r@[1].name@ == CURRENT_CINEMA_EVALUATION_NAME@ && r@[1].expression@ == CURRENT_CINEMA_EXPRESSION@,
    {
        let mut v: Vec<crate::browser::BrowserEvaluation> = Vec::new();
        v.push(crate::browser::BrowserEvaluation::new(REPERTOIRE_STATE_EVALUATION_NAME, REPERTOIRE_STATE_EXPRESSION));
        v.push(crate::browser::BrowserEvaluation::new(CURRENT_CINEMA_EVALUATION_NAME, CURRENT_CINEMA_EXPRESSION));
        v
    }
}

/// The result of the page script `evaluation_name`, or the error naming the missing script.
pub fn evaluation_payload(page: &crate::browser::RenderedPage, evaluation_name: &str) -> (r: AppResult<String>)
    ensures
        match crate::browser::evaluation_result(crate::browser::result_views(page.evaluations@), evaluation_name@) {
            Some(v) => r matches Ok(p) && p@ == v,
            None => r matches Err(crate::error::AppError::BrowserUnavailable(m))
                && m@ == "Brak wyniku skryptu `"@ + evaluation_name@ + "` podczas odczytu danych Helios."@,
        },
{
    match page.evaluation(evaluation_name) {
        Some(v) => Ok(string_of(chars_of(v).as_slice())),
        None => Err(missing_evaluation_error(evaluation_name)),
    }
}

/// The error of a page script whose result is not the JSON expected.
pub fn invalid_evaluation_error(evaluation_name: &str, error: &str) -> (r: crate::error::AppError)
    ensures
        r matches crate::error::AppError::BrowserUnavailable(m)
            && m@ == "Nie udało się odczytać danych Helios z wyniku `"@ + evaluation_name@ + "`: "@ + error@,
{
    let mut v = chars_of("Nie udało się odczytać danych Helios z wyniku `");
    push_str(&mut v, evaluation_name);
    push_str(&mut v, "`: ");
    push_str(&mut v, error);
    crate::error::AppError::BrowserUnavailable(string_of(v.as_slice()))
}

proof fn lemma_helios_ids_seen(links: Seq<ElementView>)
    ensures
        forall|k: int| 0 <= k < helios_venues_spec(links).len() ==> id_seen_before(links, links.len() as int, #[trigger] helios_venues_spec(links)[k].0),
    decreases links.len(),
{
    if links.len() > 0 {
        let init = links.drop_last();
        let n = links.len() - 1;
        lemma_helios_ids_seen(init);
        let pre = helios_venues_spec(init);
        assert forall|k: int| 0 <= k < helios_venues_spec(links).len() implies id_seen_before(links, links.len() as int, #[trigger] helios_venues_spec(links)[k].0) by {
            if k < pre.len() {
                assert(helios_venues_spec(links)[k] == pre[k]);
                assert(id_seen_before(init, n, pre[k].0));
                let j = choose|j: int| 0 <= j < n && #[trigger] link_venue_id(init[j]) == Some(pre[k].0);
                assert(init[j] == links[j]);
            } else {
                assert(link_venue_id(links[n]) == Some(helios_venues_spec(links)[k].0));
            }
        }
    }
}

/// No venue id occurs twice among the venues that the home page lists.
pub proof fn lemma_helios_venue_ids_unique(links: Seq<ElementView>)
    ensures
        forall|a: int, b: int| 0 <= a < b < helios_venues_spec(links).len() ==> helios_venues_spec(links)[a].0 != helios_venues_spec(links)[b].0,
    decreases links.len(),
{
    if links.len() > 0 {
        let init = links.drop_last();
        let n = links.len() - 1;
        lemma_helios_venue_ids_unique(init);
        lemma_helios_ids_seen(init);
        let pre = helios_venues_spec(init);
        let all = helios_venues_spec(links);
        assert forall|a: int, b: int| 0 <= a < b < all.len() implies all[a].0 != all[b].0 by {
            if b < pre.len() {
                assert(all[a] == pre[a] && all[b] == pre[b]);
            } else {
                assert(all[a] == pre[a]);
                assert(id_seen_before(init, n, pre[a].0));
                let j = choose|j: int| 0 <= j < n && #[trigger] link_venue_id(init[j]) == Some(pre[a].0);
                assert(init[j] == links[j]);
                assert(first_with_id(links, n));
                assert(all[b].0 == link_venue_id(links[n])->0);
                if all[a].0 == all[b].0 {
                    assert(id_seen_before(links, n, link_venue_id(links[n])->0));
                }
            }
        }
    }
}

} // verus!
