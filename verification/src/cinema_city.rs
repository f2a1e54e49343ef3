//! The Cinema City chain: the addresses of its pages and API, its venues, its repertoire
//! pages, and the booking links of its showings.
use crate::common::{fold_polish, fold_polish_character_to_ascii, opt_view, string_views, MISSING_DATA_LABEL};
use crate::domain::{venue_view, venue_views, CinemaChainId, CinemaVenue, MoviePlayDetails, MoviePlayTime, Repertoire};
use crate::error::{AppError, AppResult};
use crate::helios::{trim_char, trim_char_seq, trim_end_char, trim_end_char_seq};
use crate::patterns::{
    regex_first_groups, regex_group_one_matches, regex_named_capture, regex_named_group, regex_replace_all,
    TEMPLATE_PATTERN, TENANT_ID_PATTERN, WHITESPACE_PATTERN,
};
use crate::retry::RetryPolicy;
use crate::scrape::{document_matches, name_views, scraped_views, select_in_document};
use crate::showings::{byte_slice, byte_slice_spec, details_views, repertoire_view, repertoire_views, time_view, RepertoireView, TimeView};
use crate::text::{
    chars_of, collapse_ws_seq, contains, contains_seq, is_ascii_alnum, is_ascii_alphanumeric, lower_char, occurs_at,
    occurs_at_exec, push_all, push_str, replace, replace_seq, starts_with, starts_with_seq, string_of,
    to_ascii_lowercase_char, trim, trim_seq,
};
use vstd::prelude::*;

verus! {

/// The element whose presence shows that a repertoire page has rendered.
pub const REPERTOIRE_PAGE_READY_SELECTOR: &'static str = "h2.mr-sm";

/// A movie of a repertoire page.
pub const REPERTOIRE_SELECTOR: &'static str = "div.row.qb-movie";

/// The element whose presence shows that the venue page has rendered.
pub const CINEMA_VENUES_PAGE_READY_SELECTOR: &'static str = "body";

/// A venue of the venue page in its older markup.
pub const LEGACY_CINEMA_VENUES_SELECTOR: &'static str = "option[value][data-tokens]";

/// The title of a movie.
pub const MOVIE_NAME_SELECTOR: &'static str = "h3.qb-movie-name";

/// The information line of a movie (genres, running time, language).
pub const MOVIE_INFO_SELECTOR: &'static str = "div.qb-movie-info-wrapper span";

/// Any labelled span.
pub const LABELLED_SPAN_SELECTOR: &'static str = "span[aria-label]";

/// The screening attributes of a group of showings.
pub const SCREENING_ATTRIBUTE_SELECTOR: &'static str = "ul.qb-screening-attributes span[aria-label]";

/// A showing time button.
pub const PLAY_TIME_SELECTOR: &'static str = "a.btn.btn-primary.btn-lg";

/// A group of showings of one format and language.
pub const PLAY_DETAILS_SELECTOR: &'static str = "div.qb-movie-info-column";

/// The link to a movie's page.
pub const MOVIE_LINK_SELECTOR: &'static str = "a.qb-movie-link[href]";

/// The headings of the showing groups (where presales are announced).
pub const PRESALE_HEADING_SELECTOR: &'static str = "div.qb-movie-info-column h4";

/// The tenant used when a page names none.
pub const DEFAULT_CINEMA_CITY_TENANT_ID: &'static str = "10103";

pub const DEFAULT_CINEMA_CITY_QUICKBOOK_API_BASE_URL: &'static str = "https://www.cinema-city.pl/pl/data-api-service";

/// The language of quickbook answers.
pub const QUICKBOOK_LANGUAGE: &'static str = "pl_PL";

/// The second language of quickbook answers, whose film names serve as alternate titles.
pub const QUICKBOOK_SECONDARY_LANGUAGE: &'static str = "en_GB";

/// The Cinema City client's addresses and retry policy.
#[derive(Debug, Clone, PartialEq, Eq)]
pub struct CinemaCity {
    pub repertoire_url: String,
    pub cinema_venues_url: String,
    pub quickbook_api_base_url: String,
    pub retry_policy: RetryPolicy,
}

impl CinemaCity {
    pub fn new(repertoire_url: String, cinema_venues_url: String) -> (r: Self)
        ensures
            r.repertoire_url == repertoire_url,
            r.cinema_venues_url == cinema_venues_url,
            r.quickbook_api_base_url@ == DEFAULT_CINEMA_CITY_QUICKBOOK_API_BASE_URL@,
            r.retry_policy.max_attempts_spec() == 4,
            r.retry_policy.initial_delay_spec() == 250 * crate::retry::NANOS_PER_MILLI,
            r.retry_policy.max_delay_spec() == 2000 * crate::retry::NANOS_PER_MILLI,
    {
        CinemaCity {
            repertoire_url,
            cinema_venues_url,
            quickbook_api_base_url: DEFAULT_CINEMA_CITY_QUICKBOOK_API_BASE_URL.to_owned(),
            retry_policy: RetryPolicy::network_requests(),
        }
    }

    pub fn with_retry_policy(self, retry_policy: RetryPolicy) -> (r: Self)
        ensures
            r.repertoire_url == self.repertoire_url,
            r.cinema_venues_url == self.cinema_venues_url,
            r.quickbook_api_base_url == self.quickbook_api_base_url,
            r.retry_policy == retry_policy,
    {
        CinemaCity { retry_policy, ..self }
    }

    pub fn with_quickbook_api_base_url(self, quickbook_api_base_url: String) -> (r: Self)
        ensures
            r.repertoire_url == self.repertoire_url,
            r.cinema_venues_url == self.cinema_venues_url,
            r.quickbook_api_base_url == quickbook_api_base_url,
            r.retry_policy == self.retry_policy,
    {
        CinemaCity { quickbook_api_base_url, ..self }
    }
}

/// The value given for `key`: the last pair with that key.
pub open spec fn template_value(values: Seq<(Seq<char>, Seq<char>)>, key: Seq<char>) -> Option<Seq<char>>
    decreases values.len(),
{
    if values.len() == 0 {
        None
    } else if values.last().0 == key {
        Some(values.last().1)
    } else {
        template_value(values.drop_last(), key)
    }
}

pub open spec fn pair_views(values: Seq<(String, String)>) -> Seq<(Seq<char>, Seq<char>)> {
    Seq::new(values.len(), |i: int| (values[i].0@, values[i].1@))
}

pub open spec fn placeholder(name: Seq<char>) -> Seq<char> {
    seq!['{'] + name + seq!['}']
}

/// `rendered` with each placeholder of `names`, in turn, replaced by its value; `Err` with
/// the first name that has no value.
pub open spec fn fill_placeholders(rendered: Seq<char>, names: Seq<Seq<char>>, values: Seq<(Seq<char>, Seq<char>)>) -> Result<Seq<char>, Seq<char>>
    decreases names.len(),
{
    if names.len() == 0 {
        Ok(rendered)
    } else {
        match template_value(values, names[0]) {
            None => Err(names[0]),
            Some(v) => fill_placeholders(replace_seq(rendered, placeholder(names[0]), v), names.drop_first(), values),
        }
    }
}

/// A template with its placeholders (the names in braces that the template pattern finds)
/// filled in.
pub open spec fn fill_template_spec(text: Seq<char>, values: Seq<(Seq<char>, Seq<char>)>) -> Result<Seq<char>, Seq<char>> {
    fill_placeholders(text, regex_first_groups(TEMPLATE_PATTERN@, text), values)
}

fn lookup_value(values: &Vec<(String, String)>, key: &[char]) -> (r: Option<Vec<char>>)
    ensures
        match r {
            Some(v) => template_value(pair_views(values@), key@) == Some(v@),
            None => template_value(pair_views(values@), key@) is None,
        },
{
    let mut i: usize = values.len();
    assert(pair_views(values@).subrange(0, values@.len() as int) =~= pair_views(values@));
    while i > 0
        invariant
            i <= values@.len(),
            template_value(pair_views(values@), key@) == template_value(pair_views(values@).subrange(0, i as int), key@),
        decreases i,
    {
        let ghost sub = pair_views(values@).subrange(0, i as int);
        assert(sub.last() == (values@[i - 1].0@, values@[i - 1].1@));
        if crate::text::chars_eq(chars_of(values[i - 1].0.as_str()).as_slice(), key) {
            return Some(chars_of(values[i - 1].1.as_str()));
        }
        assert(sub.drop_last() =~= pair_views(values@).subrange(0, i - 1));
        i = i - 1;
    }
    None
}

impl CinemaCity {
    /// A URL template with its placeholders filled from `values`; an error names the first
    /// placeholder without a value.
    pub fn fill_string_template(text: &str, values: &Vec<(String, String)>) -> (r: AppResult<String>)
        ensures
            match fill_template_spec(text@, pair_views(values@)) {
                Ok(s) => r matches Ok(t) && t@ == s,
                Err(name) => r matches Err(AppError::TemplateRender { missing_variable }) && missing_variable@ == name,
            },
    {
        let names = regex_group_one_matches(TEMPLATE_PATTERN, text);
        let ghost all = regex_first_groups(TEMPLATE_PATTERN@, text@);
        let mut rendered = chars_of(text);
        let mut i: usize = 0;
        assert(all.subrange(0, all.len() as int) =~= all);
        while i < names.len()
            invariant
                i <= names@.len(),
                names@.len() == all.len(),
                forall|k: int| 0 <= k < names@.len() ==> #[trigger] names@[k]@ == all[k],
                fill_template_spec(text@, pair_views(values@)) == fill_placeholders(rendered@, all.subrange(i as int, all.len() as int), pair_views(values@)),
            decreases names.len() - i,
        {
            let ghost rest = all.subrange(i as int, all.len() as int);
            assert(rest[0] == names@[i as int]@);
            assert(rest.drop_first() =~= all.subrange(i + 1, all.len() as int));
            let name = chars_of(names[i].as_str());
            match lookup_value(values, name.as_slice()) {
                None => {
                    return Err(AppError::TemplateRender { missing_variable: names[i].clone() });
                },
                Some(v) => {
                    let mut p: Vec<char> = Vec::new();
                    p.push('{');
                    push_all(&mut p, name.as_slice());
                    p.push('}');
                    assert(p@ =~= placeholder(name@));
                    rendered = replace(rendered.as_slice(), p.as_slice(), v.as_slice());
                },
            }
            i = i + 1;
        }
        Ok(string_of(rendered.as_slice()))
    }
}

/// A venue label as shown: Polish letters folded to ASCII, trimmed, and each run of
/// whitespace replaced by one space.
pub open spec fn venue_label_spec(label: Seq<char>) -> Seq<char> {
    collapse_ws_seq(trim_seq(label.map_values(|c: char| fold_polish(c))))
}

fn fold_chars(s: &[char]) -> (r: Vec<char>)
    ensures
        r@ == s@.map_values(|c: char| fold_polish(c)),
{
    let mut out: Vec<char> = Vec::new();
    let mut i: usize = 0;
    while i < s.len()
        invariant
            i <= s@.len(),
            out@ == s@.subrange(0, i as int).map_values(|c: char| fold_polish(c)),
        decreases s.len() - i,
    {
        out.push(fold_polish_character_to_ascii(s[i]));
        assert(s@.subrange(0, i + 1).map_values(|c: char| fold_polish(c)) =~= s@.subrange(0, i as int).map_values(|c: char| fold_polish(c)).push(fold_polish(s@[i as int])));
        i = i + 1;
    }
    assert(s@.subrange(0, s@.len() as int) =~= s@);
    out
}

impl CinemaCity {
    pub fn normalize_venue_label(label: &str) -> (r: String)
        ensures
            r@ == venue_label_spec(label@),
    {
        let folded = fold_chars(chars_of(label).as_slice());
        let trimmed = string_of(trim(folded.as_slice()).as_slice());
        regex_replace_all(WHITESPACE_PATTERN, trimmed.as_str(), " ")
    }
}

/// The start of the last occurrence of `p` that ends by `end`.
pub open spec fn last_occurrence_before(s: Seq<char>, p: Seq<char>, end: int) -> Option<int>
    decreases end,
{
    if end <= 0 {
        None
    } else if occurs_at(s, p, end - 1) {
        Some(end - 1)
    } else {
        last_occurrence_before(s, p, end - 1)
    }
}

/// The part of `s` after the last " - " (`rsplit(" - ").next()`), or all of `s`.
pub open spec fn after_last_dash(s: Seq<char>) -> Seq<char> {
    match last_occurrence_before(s, " - "@, s.len() as int) {
        Some(i) => s.subrange(i + 3, s.len() as int),
        None => s,
    }
}

/// Each character folded to ASCII and lower-cased; letters and digits kept, and every run
/// of other characters turned into one hyphen.
pub open spec fn slug_raw(s: Seq<char>) -> Seq<char>
    decreases s.len(),
{
    if s.len() == 0 {
        Seq::empty()
    } else {
        let pre = slug_raw(s.drop_last());
        let c = lower_char(fold_polish(s.last()));
        if is_ascii_alnum(c) {
            pre.push(c)
        } else if pre.len() > 0 && pre.last() == '-' {
            pre
        } else {
            pre.push('-')
        }
    }
}

/// The address slug of a venue: the part of its name after the last " - ", in slug form,
/// without hyphens at either end.
pub open spec fn venue_slug_spec(venue_name: Seq<char>) -> Seq<char> {
    trim_char_seq(slug_raw(after_last_dash(venue_name)), '-')
}

fn after_last_dash_exec(s: &[char]) -> (r: Vec<char>)
    ensures
        r@ == after_last_dash(s@),
{
    let dash: Vec<char> = vec![' ', '-', ' '];
    proof {
        reveal_strlit(" - ");
        assert(dash@ =~= " - "@);
    }
    let mut end: usize = s.len();
    while end > 0
        invariant
            end <= s@.len(),
            dash@ == " - "@,
            dash@.len() == 3,
            last_occurrence_before(s@, " - "@, s@.len() as int) == last_occurrence_before(s@, " - "@, end as int),
        decreases end,
    {
        if occurs_at_exec(s, dash.as_slice(), end - 1) {
            assert(end - 1 + dash@.len() <= s@.len());
            let n = s.len();
            assert(end + 2 <= n);
            return crate::text::copy_range(s, end + 2, n);
        }
        end = end - 1;
    }
    crate::text::copy_range(s, 0, s.len())
}

fn slug_chars(s: &[char]) -> (r: Vec<char>)
    ensures
        r@ == slug_raw(s@),
{
    let mut out: Vec<char> = Vec::new();
    let mut i: usize = 0;
    while i < s.len()
        invariant
            i <= s@.len(),
            out@ == slug_raw(s@.subrange(0, i as int)),
        decreases s.len() - i,
    {
        assert(s@.subrange(0, i + 1).drop_last() =~= s@.subrange(0, i as int));
        let c = to_ascii_lowercase_char(fold_polish_character_to_ascii(s[i]));
        if is_ascii_alphanumeric(c) {
            out.push(c);
        } else if !(out.len() > 0 && out[out.len() - 1] == '-') {
            out.push('-');
        }
        i = i + 1;
    }
    assert(s@.subrange(0, s@.len() as int) =~= s@);
    out
}

impl CinemaCity {
    pub fn build_venue_slug(venue_name: &str) -> (r: String)
        ensures
            r@ == venue_slug_spec(venue_name@),
    {
        let source = after_last_dash_exec(chars_of(venue_name).as_slice());
        let raw = slug_chars(source.as_slice());
        string_of(trim_char(raw.as_slice(), '-').as_slice())
    }

    /// The canonical repertoire page of a venue on a date.
    pub fn canonical_repertoire_url(venue: &CinemaVenue, date: &str) -> (r: String)
        ensures
            r@ == "https://www.cinema-city.pl/kina/"@ + venue_slug_spec(venue.venue_name@) + "/"@ + venue.venue_id@
                + "#/buy-tickets-by-cinema?in-cinema="@ + venue.venue_id@ + "&at="@ + date@ + "&view-mode=list"@,
    {
        let slug = CinemaCity::build_venue_slug(venue.venue_name.as_str());
        let mut v = chars_of("https://www.cinema-city.pl/kina/");
        push_str(&mut v, slug.as_str());
        push_str(&mut v, "/");
        push_str(&mut v, venue.venue_id.as_str());
        push_str(&mut v, "#/buy-tickets-by-cinema?in-cinema=");
        push_str(&mut v, venue.venue_id.as_str());
        push_str(&mut v, "&at=");
        push_str(&mut v, date);
        push_str(&mut v, "&view-mode=list");
        string_of(v.as_slice())
    }

    /// A repertoire template of the older form: the booking route without a venue slug.
    pub fn uses_legacy_repertoire_template(template: &str) -> (r: bool)
        ensures
            r == (contains_seq(template@, "/#/buy-tickets-by-cinema"@) && !contains_seq(template@, "{cinema_venue_slug}"@)),
    {
        let t = chars_of(template);
        crate::text::contains_str(t.as_slice(), "/#/buy-tickets-by-cinema")
            && !crate::text::contains_str(t.as_slice(), "{cinema_venue_slug}")
    }
}

/// The values a repertoire template may use.
pub open spec fn repertoire_template_values(venue: CinemaVenue, date: Seq<char>) -> Seq<(Seq<char>, Seq<char>)> {
    seq![
        ("cinema_venue_id"@, venue.venue_id@),
        ("cinema_venue_slug"@, venue_slug_spec(venue.venue_name@)),
        ("repertoire_date"@, date),
    ]
}

impl CinemaCity {
    /// The repertoire page of a venue on a date: the canonical page for a template of the
    /// older form, else the template filled in.
    pub fn build_repertoire_url(&self, venue: &CinemaVenue, date: &str) -> (r: AppResult<String>)
        ensures
            contains_seq(self.repertoire_url@, "/#/buy-tickets-by-cinema"@) && !contains_seq(self.repertoire_url@, "{cinema_venue_slug}"@)
                ==> (r matches Ok(u) && u@ == "https://www.cinema-city.pl/kina/"@ + venue_slug_spec(venue.venue_name@) + "/"@
                    + venue.venue_id@ + "#/buy-tickets-by-cinema?in-cinema="@ + venue.venue_id@ + "&at="@ + date@ + "&view-mode=list"@),
            !(contains_seq(self.repertoire_url@, "/#/buy-tickets-by-cinema"@) && !contains_seq(self.repertoire_url@, "{cinema_venue_slug}"@))
                ==> match fill_template_spec(self.repertoire_url@, repertoire_template_values(*venue, date@)) {
                    Ok(s) => r matches Ok(t) && t@ == s,
                    Err(name) => r matches Err(AppError::TemplateRender { missing_variable }) && missing_variable@ == name,
                },
    {
        if CinemaCity::uses_legacy_repertoire_template(self.repertoire_url.as_str()) {
            return Ok(CinemaCity::canonical_repertoire_url(venue, date));
        }
        let slug = CinemaCity::build_venue_slug(venue.venue_name.as_str());
        let mut values: Vec<(String, String)> = Vec::new();
        values.push(("cinema_venue_id".to_owned(), venue.venue_id.clone()));
        values.push(("cinema_venue_slug".to_owned(), slug));
        values.push(("repertoire_date".to_owned(), date.to_owned()));
        assert(pair_views(values@) =~= repertoire_template_values(*venue, date@));
        CinemaCity::fill_string_template(self.repertoire_url.as_str(), &values)
    }

    /// The quickbook address of a venue's film events on a date, in `language`.
    pub fn build_quickbook_film_events_url_in(&self, tenant_id: &str, venue: &CinemaVenue, date: &str, language: &str) -> (r: String)
        ensures
            r@ == trim_end_char_seq(self.quickbook_api_base_url@, '/') + "/v1/quickbook/"@ + tenant_id@
                + "/film-events/in-cinema/"@ + venue.venue_id@ + "/at-date/"@ + date@ + "?attr=&lang="@ + language@,
    {
        let mut v = trim_end_char(chars_of(self.quickbook_api_base_url.as_str()).as_slice(), '/');
        push_str(&mut v, "/v1/quickbook/");
        push_str(&mut v, tenant_id);
        push_str(&mut v, "/film-events/in-cinema/");
        push_str(&mut v, venue.venue_id.as_str());
        push_str(&mut v, "/at-date/");
        push_str(&mut v, date);
        push_str(&mut v, "?attr=&lang=");
        push_str(&mut v, language);
        string_of(v.as_slice())
    }

    /// The quickbook address of a venue's film events on a date, in Polish.
    pub fn build_quickbook_film_events_url(&self, tenant_id: &str, venue: &CinemaVenue, date: &str) -> (r: String)
        ensures
            r@ == trim_end_char_seq(self.quickbook_api_base_url@, '/') + "/v1/quickbook/"@ + tenant_id@
                + "/film-events/in-cinema/"@ + venue.venue_id@ + "/at-date/"@ + date@ + "?attr=&lang="@ + QUICKBOOK_LANGUAGE@,
    {
        self.build_quickbook_film_events_url_in(tenant_id, venue, date, QUICKBOOK_LANGUAGE)
    }

    /// The tenant id that a page script assigns, if any.
    pub fn extract_tenant_id(rendered_html: &str) -> (r: Option<String>)
        ensures
            opt_view(r) == regex_named_group(TENANT_ID_PATTERN@, rendered_html@, "tenant_id"@),
    {
        regex_named_capture(TENANT_ID_PATTERN, rendered_html, "tenant_id")
    }

    /// The time of an event timestamp: bytes 11 to 16.
    pub fn extract_showtime_value(event_date_time: &str) -> (r: Option<String>)
        ensures
            opt_view(r) == byte_slice_spec(event_date_time@, 11, 16),
    {
        match byte_slice(chars_of(event_date_time).as_slice(), 11, 16) {
            Some(t) => Some(string_of(t.as_slice())),
            None => None,
        }
    }
}

/// A link of Cinema City made absolute: absolute links as they are, protocol-relative ones
/// over https, and site paths under the site; anything else, or a blank link, is dropped.
pub open spec fn canonical_url_spec(url: Seq<char>) -> Option<Seq<char>> {
    let t = trim_seq(url);
    if t.len() == 0 {
        None
    } else if starts_with_seq(t, "https://"@) || starts_with_seq(t, "http://"@) {
        Some(t)
    } else if starts_with_seq(t, "//"@) {
        Some("https:"@ + t)
    } else if starts_with_seq(t, "/"@) {
        Some("https://www.cinema-city.pl"@ + t)
    } else {
        None
    }
}

impl CinemaCity {
    pub fn canonicalize_cinema_city_url(url: &str) -> (r: Option<String>)
        ensures
            opt_view(r) == canonical_url_spec(url@),
    {
        let t = trim(chars_of(url).as_slice());
        if t.len() == 0 {
            return None;
        }
        if starts_with(t.as_slice(), chars_of("https://").as_slice()) || starts_with(t.as_slice(), chars_of("http://").as_slice()) {
            return Some(string_of(t.as_slice()));
        }
        if starts_with(t.as_slice(), chars_of("//").as_slice()) {
            let mut v = chars_of("https:");
            push_all(&mut v, t.as_slice());
            return Some(string_of(v.as_slice()));
        }
        if starts_with(t.as_slice(), chars_of("/").as_slice()) {
            let mut v = chars_of("https://www.cinema-city.pl");
            push_all(&mut v, t.as_slice());
            return Some(string_of(v.as_slice()));
        }
        None
    }
}

/// Every character is an ASCII digit (true of an empty text).
pub open spec fn all_ascii_digits(s: Seq<char>) -> bool {
    forall|i: int| 0 <= i < s.len() ==> crate::text::is_ascii_digit_spec(#[trigger] s[i])
}

fn all_ascii_digits_exec(s: &[char]) -> (r: bool)
    ensures
        r == all_ascii_digits(s@),
{
    let mut i: usize = 0;
    while i < s.len()
        invariant
            i <= s@.len(),
            forall|j: int| 0 <= j < i ==> crate::text::is_ascii_digit_spec(#[trigger] s@[j]),
        decreases s.len() - i,
    {
        if !crate::text::is_ascii_digit(s[i]) {
            return false;
        }
        i = i + 1;
    }
    true
}

/// The venue of an option of the older venue page, as (id, name): its `value` and
/// `data-tokens`, trimmed; none when either is absent, the name is blank or "null", or the
/// id holds anything but digits.
pub open spec fn legacy_venue_spec(e: crate::helios::ElementView) -> Option<(Seq<char>, Seq<char>)> {
    if e.2.len() >= 2 && e.2[0] is Some && e.2[1] is Some {
        let name = trim_seq(e.2[0]->0);
        let id = trim_seq(e.2[1]->0);
        if name.len() == 0 || name == "null"@ || !all_ascii_digits(id) {
            None
        } else {
            Some((id, name))
        }
    } else {
        None
    }
}

pub open spec fn legacy_venues_spec(es: Seq<crate::helios::ElementView>) -> Seq<(Seq<char>, Seq<char>, Seq<char>)>
    decreases es.len(),
{
    if es.len() == 0 {
        Seq::empty()
    } else {
        let pre = legacy_venues_spec(es.drop_last());
        match legacy_venue_spec(es.last()) {
            Some(v) => pre.push(("cinema-city"@, v.0, v.1)),
            None => pre,
        }
    }
}

impl CinemaCity {
    /// The venues of the older venue page markup: its options with a venue id and name.
    pub fn parse_legacy_venues(rendered_html: &str) -> (r: Vec<CinemaVenue>)
        ensures
            venue_views(r@) == legacy_venues_spec(document_matches(rendered_html@, LEGACY_CINEMA_VENUES_SELECTOR@, seq!["data-tokens"@, "value"@])),
    {
        let names: Vec<&str> = vec!["data-tokens", "value"];
        let options = select_in_document(rendered_html, LEGACY_CINEMA_VENUES_SELECTOR, &names);
        assert(name_views(names@) =~= seq!["data-tokens"@, "value"@]);
        let ghost views = scraped_views(options@);
        let mut out: Vec<CinemaVenue> = Vec::new();
        let mut i: usize = 0;
        while i < options.len()
            invariant
                i <= options@.len(),
                views == scraped_views(options@),
                venue_views(out@) == legacy_venues_spec(views.subrange(0, i as int)),
            decreases options.len() - i,
        {
            assert(views.subrange(0, i + 1).drop_last() =~= views.subrange(0, i as int));
            assert(views.subrange(0, i + 1).last() == options@[i as int].view_tuple());
            let option = &options[i];
            if option.attributes.len() >= 2 {
                match (&option.attributes[0], &option.attributes[1]) {
                    (Some(tokens), Some(value)) => {
                        let name = trim(chars_of(tokens.as_str()).as_slice());
                        let id = trim(chars_of(value.as_str()).as_slice());
                        proof {
                            reveal_strlit("null");
                        }
                        if !(name.len() == 0 || crate::text::eq_str(name.as_slice(), "null") || !all_ascii_digits_exec(id.as_slice())) {
                            let ghost before = venue_views(out@);
                            out.push(CinemaVenue {
                                chain_id: CinemaChainId::CinemaCity.as_str().to_owned(),
                                venue_id: string_of(id.as_slice()),
                                venue_name: string_of(name.as_slice()),
                            });
                            proof {
                                reveal_strlit("cinema-city");
                                assert(venue_views(out@) =~= before.push(("cinema-city"@, id@, name@)));
                            }
                        }
                    },
                    _ => {},
                }
            }
            i = i + 1;
        }
        assert(views.subrange(0, views.len() as int) =~= views);
        out
    }
}

/// The address of a site of the embedded site list.
#[derive(Debug, Clone, PartialEq, Eq)]
pub struct CinemaCityApiSiteAddress {
    pub city: Option<String>,
}

/// A site of the site list that the venue page embeds.
#[derive(Debug, Clone, PartialEq, Eq)]
pub struct CinemaCityApiSite {
    pub external_code: String,
    pub name: String,
    pub address: Option<CinemaCityApiSiteAddress>,
}

/// The name a site is listed under: its label, prefixed by its city and " - " when the label
/// starts with the city and a space but not with the city and " - ".
pub open spec fn site_name_spec(name: Seq<char>, city: Option<Seq<char>>) -> Seq<char> {
    match city {
        Some(c) => if c.len() > 0 && c != name {
            if starts_with_seq(name, c + " - "@) {
                name
            } else if starts_with_seq(name, c + " "@) && name.len() > c.len() + 1 {
                c + " - "@ + name.subrange(c.len() + 1int, name.len() as int)
            } else {
                name
            }
        } else {
            name
        },
        None => name,
    }
}

/// The venue of a site: its code, trimmed, when all digits (and not empty), and its label;
/// none when the label is empty.
pub open spec fn site_venue_spec(site: CinemaCityApiSite) -> Option<(Seq<char>, Seq<char>, Seq<char>)> {
    let id = trim_seq(site.external_code@);
    let name = venue_label_spec(site.name@);
    if id.len() == 0 || !all_ascii_digits(id) || name.len() == 0 {
        None
    } else {
        let city = match site.address {
            Some(a) => match a.city {
                Some(c) => Some(venue_label_spec(c@)),
                None => None,
            },
            None => None,
        };
        Some(("cinema-city"@, id, site_name_spec(name, city)))
    }
}

impl CinemaCityApiSite {
    pub fn into_venue(self) -> (r: Option<CinemaVenue>)
        ensures
            match r {
                Some(v) => site_venue_spec(self) == Some(venue_view(v)),
                None => site_venue_spec(self) is None,
            },
    {
        let id = trim(chars_of(self.external_code.as_str()).as_slice());
        if id.len() == 0 || !all_ascii_digits_exec(id.as_slice()) {
            return None;
        }
        let name = CinemaCity::normalize_venue_label(self.name.as_str());
        let name_chars = chars_of(name.as_str());
        if name_chars.len() == 0 {
            return None;
        }
        let city: Option<String> = match &self.address {
            Some(a) => match &a.city {
                Some(c) => Some(CinemaCity::normalize_venue_label(c.as_str())),
                None => None,
            },
            None => None,
        };
        let venue_name = match city {
            Some(c) => {
                let cc = chars_of(c.as_str());
                if cc.len() > 0 && !crate::text::chars_eq(cc.as_slice(), name_chars.as_slice()) {
                    let mut with_dash = cc.clone();
                    push_str(&mut with_dash, " - ");
                    let mut with_space = cc.clone();
                    push_str(&mut with_space, " ");
                    proof {
                        reveal_strlit(" ");
                        reveal_strlit(" - ");
                    }
                    assert(with_space@.len() == cc@.len() + 1);
                    if starts_with(name_chars.as_slice(), with_dash.as_slice()) {
                        name
                    } else if starts_with(name_chars.as_slice(), with_space.as_slice()) && name_chars.len() > with_space.len() {
                        let rest = crate::text::copy_range(name_chars.as_slice(), with_space.len(), name_chars.len());
                        let mut v = cc.clone();
                        push_str(&mut v, " - ");
                        push_all(&mut v, rest.as_slice());
                        string_of(v.as_slice())
                    } else {
                        name
                    }
                } else {
                    name
                }
            },
            None => name,
        };
        let v = CinemaVenue {
            chain_id: CinemaChainId::CinemaCity.as_str().to_owned(),
            venue_id: string_of(id.as_slice()),
            venue_name,
        };
        proof {
            reveal_strlit("cinema-city");
        }
        Some(v)
    }
}

pub open spec fn sites_venues_spec(sites: Seq<CinemaCityApiSite>) -> Seq<(Seq<char>, Seq<char>, Seq<char>)>
    decreases sites.len(),
{
    if sites.len() == 0 {
        Seq::empty()
    } else {
        let pre = sites_venues_spec(sites.drop_last());
        match site_venue_spec(sites.last()) {
            Some(v) => pre.push(v),
            None => pre,
        }
    }
}

/// The venues of the embedded site list, in its order.
pub fn venues_from_api_sites(sites: Vec<CinemaCityApiSite>) -> (r: Vec<CinemaVenue>)
    ensures
        venue_views(r@) == sites_venues_spec(sites@),
{
    let ghost all = sites@;
    let n = sites.len();
    let mut rest = sites;
    let mut out: Vec<CinemaVenue> = Vec::new();
    let mut taken: usize = 0;
    while rest.len() > 0
        invariant
            taken <= all.len(),
            all.len() == n,
            rest@ == all.subrange(taken as int, all.len() as int),
            venue_views(out@) == sites_venues_spec(all.subrange(0, taken as int)),
        decreases rest.len(),
    {
        let site = rest.remove(0);
        assert(site == all[taken as int]);
        assert(all.subrange(0, taken + 1).drop_last() =~= all.subrange(0, taken as int));
        match site.into_venue() {
            Some(v) => {
                let ghost before = venue_views(out@);
                out.push(v);
                assert(venue_views(out@) =~= before.push(venue_view(v)));
            },
            None => {},
        }
        taken = taken + 1;
        assert(rest@ =~= all.subrange(taken as int, all.len() as int));
    }
    assert(all.subrange(0, all.len() as int) =~= all);
    out
}

/// What the rendered venue page offers: venues in its older markup, or else the embedded
/// site list (its JSON, when the page assigns one).
#[derive(Debug, Clone, PartialEq, Eq)]
pub enum VenuesPage {
    Legacy(Vec<CinemaVenue>),
    ApiSitesList(Option<String>),
}

impl CinemaCity {
    /// Reads the venue page: the older markup when it lists any venue, else the embedded
    /// `apiSitesList` array.
    pub fn parse_venues_page(rendered_html: &str) -> (r: VenuesPage)
        ensures
            legacy_venues_spec(document_matches(rendered_html@, LEGACY_CINEMA_VENUES_SELECTOR@, seq!["data-tokens"@, "value"@])).len() > 0
                ==> (r matches VenuesPage::Legacy(v) && venue_views(v@) == legacy_venues_spec(document_matches(rendered_html@, LEGACY_CINEMA_VENUES_SELECTOR@, seq!["data-tokens"@, "value"@]))),
            legacy_venues_spec(document_matches(rendered_html@, LEGACY_CINEMA_VENUES_SELECTOR@, seq!["data-tokens"@, "value"@])).len() == 0
                ==> (r matches VenuesPage::ApiSitesList(json) && opt_view(json) == crate::common::json_assignment_spec(rendered_html@, "apiSitesList"@, '[', ']')),
    {
        let legacy = CinemaCity::parse_legacy_venues(rendered_html);
        if legacy.len() > 0 {
            return VenuesPage::Legacy(legacy);
        }
        VenuesPage::ApiSitesList(crate::common::extract_json_array_assignment(rendered_html, "apiSitesList"))
    }
}

/// The error of an embedded site list that is not the JSON expected.
pub fn invalid_api_sites_list_error(error: &str) -> (r: AppError)
    ensures
        r matches AppError::BrowserUnavailable(m)
            && m@ == "Nie udało się odczytać listy lokali Cinema City z aktualnego formatu strony: "@ + error@,
{
    let mut v = chars_of("Nie udało się odczytać listy lokali Cinema City z aktualnego formatu strony: ");
    push_str(&mut v, error);
    AppError::BrowserUnavailable(string_of(v.as_slice()))
}

/// A film of a quickbook answer.
#[derive(Debug, Clone, PartialEq, Eq)]
pub struct CinemaCityFilmEventFilm {
    pub id: String,
    pub name: String,
    pub link: Option<String>,
    /// The running time in minutes.
    pub length: Option<u16>,
    pub release_year: Option<String>,
    pub release_date: Option<String>,
    pub attribute_ids: Vec<String>,
}

/// Whether the chain blocks online sales of an event.
#[derive(Debug, Clone, PartialEq, Eq)]
pub struct CinemaCityCompositeBookingLink {
    pub block_online_sales: bool,
}

/// An event (a showing) of a quickbook answer.
#[derive(Debug, Clone, PartialEq, Eq)]
pub struct CinemaCityFilmEvent {
    pub film_id: String,
    pub event_date_time: String,
    pub booking_link: Option<String>,
    pub sold_out: bool,
    pub composite_booking_link: Option<CinemaCityCompositeBookingLink>,
}

/// The body of a quickbook answer.
#[derive(Debug, Clone, PartialEq, Eq)]
pub struct CinemaCityFilmEventsBody {
    pub films: Vec<CinemaCityFilmEventFilm>,
    pub events: Vec<CinemaCityFilmEvent>,
}

/// The bookable showings of one movie: its page, when known, and its showing times (each
/// once).
#[derive(Debug, Clone, PartialEq, Eq)]
pub struct BookableMovieShowtimes {
    pub title: String,
    pub movie_page_url: Option<String>,
    pub showtimes: Vec<String>,
}

/// The film with id `id`: the last one listed with it.
pub open spec fn film_with_id(films: Seq<CinemaCityFilmEventFilm>, id: Seq<char>) -> Option<CinemaCityFilmEventFilm>
    decreases films.len(),
{
    if films.len() == 0 {
        None
    } else if films.last().id@ == id {
        Some(films.last())
    } else {
        film_with_id(films.drop_last(), id)
    }
}

/// An event can be booked online: not sold out, with a booking link, and not blocked.
pub open spec fn event_bookable(e: CinemaCityFilmEvent) -> bool {
    &&& !e.sold_out
    &&& e.booking_link is Some
    &&& trim_seq(e.booking_link->0@).len() > 0
    &&& !(e.composite_booking_link is Some && e.composite_booking_link->0.block_online_sales)
}

/// Bookable showings by movie title: (title, page, times).
pub type BookableView = (Seq<char>, Option<Seq<char>>, Seq<Seq<char>>);

pub open spec fn bookable_index(entries: Seq<BookableView>, title: Seq<char>) -> Option<int> {
    if exists|j: int| 0 <= j < entries.len() && entries[j].0 == title {
        Some(choose|j: int| 0 <= j < entries.len() && entries[j].0 == title)
    } else {
        None
    }
}

/// The entries with one bookable showing time added to its movie's entry.
pub open spec fn add_bookable(entries: Seq<BookableView>, title: Seq<char>, page: Option<Seq<char>>, time: Seq<char>) -> Seq<BookableView> {
    match bookable_index(entries, title) {
        Some(j) => {
            let e = entries[j];
            let url = if e.1 is None { page } else { e.1 };
            let times = if e.2.contains(time) { e.2 } else { e.2.push(time) };
            entries.update(j, (title, url, times))
        },
        None => entries.push((title, page, seq![time])),
    }
}

/// The bookable showings of a quickbook answer's events, in the order of first appearance:
/// each bookable event of a known film with a showing time, under the film's name, with the
/// film's page made absolute.
pub open spec fn bookable_spec(films: Seq<CinemaCityFilmEventFilm>, events: Seq<CinemaCityFilmEvent>) -> Seq<BookableView>
    decreases events.len(),
{
    if events.len() == 0 {
        Seq::empty()
    } else {
        let pre = bookable_spec(films, events.drop_last());
        let e = events.last();
        if !event_bookable(e) {
            pre
        } else {
            match film_with_id(films, e.film_id@) {
                None => pre,
                Some(f) => match byte_slice_spec(e.event_date_time@, 11, 16) {
                    None => pre,
                    Some(t) => add_bookable(pre, f.name@, match f.link {
                        Some(l) => canonical_url_spec(l@),
                        None => None,
                    }, t),
                },
            }
        }
    }
}

pub open spec fn bookable_view(b: BookableMovieShowtimes) -> BookableView {
    (b.title@, opt_view(b.movie_page_url), string_views(b.showtimes@))
}

pub open spec fn bookable_views(v: Seq<BookableMovieShowtimes>) -> Seq<BookableView> {
    Seq::new(v.len(), |i: int| bookable_view(v[i]))
}

/// No two entries share a title.
pub open spec fn titles_distinct(entries: Seq<BookableView>) -> bool {
    forall|a: int, b: int| 0 <= a < b < entries.len() ==> entries[a].0 != entries[b].0
}

/// The bookable showings of a quickbook answer hold one entry per movie title.
pub proof fn lemma_bookable_distinct(films: Seq<CinemaCityFilmEventFilm>, events: Seq<CinemaCityFilmEvent>)
    ensures
        titles_distinct(bookable_spec(films, events)),
    decreases events.len(),
{
    if events.len() > 0 {
        lemma_bookable_distinct(films, events.drop_last());
        let pre = bookable_spec(films, events.drop_last());
        let e = events.last();
        if event_bookable(e) {
            match film_with_id(films, e.film_id@) {
                None => {},
                Some(f) => match byte_slice_spec(e.event_date_time@, 11, 16) {
                    None => {},
                    Some(t) => {
                        let page = match f.link {
                            Some(l) => canonical_url_spec(l@),
                            None => None,
                        };
                        let next = add_bookable(pre, f.name@, page, t);
                        match bookable_index(pre, f.name@) {
                            Some(j) => {
                                assert forall|a: int, b: int| 0 <= a < b < next.len() implies next[a].0 != next[b].0 by {
                                    assert(next[a].0 == pre[a].0);
                                    assert(next[b].0 == pre[b].0);
                                }
                            },
                            None => {},
                        }
                    },
                },
            }
        }
    }
}

pub(crate) fn find_film<'a>(films: &'a Vec<CinemaCityFilmEventFilm>, id: &str) -> (r: Option<&'a CinemaCityFilmEventFilm>)
    ensures
        match r {
            Some(f) => film_with_id(films@, id@) == Some(*f),
            None => film_with_id(films@, id@) is None,
        },
{
    let mut i: usize = films.len();
    assert(films@.subrange(0, films@.len() as int) =~= films@);
    while i > 0
        invariant
            i <= films@.len(),
            film_with_id(films@, id@) == film_with_id(films@.subrange(0, i as int), id@),
        decreases i,
    {
        let ghost sub = films@.subrange(0, i as int);
        assert(sub.last() == films@[i - 1]);
        if crate::text::eq_str(chars_of(films[i - 1].id.as_str()).as_slice(), id) {
            return Some(&films[i - 1]);
        }
        assert(sub.drop_last() =~= films@.subrange(0, i - 1));
        i = i - 1;
    }
    None
}

pub(crate) fn has_string(v: &Vec<String>, t: &str) -> (r: bool)
    ensures
        r == string_views(v@).contains(t@),
{
    let tc = chars_of(t);
    let mut i: usize = 0;
    while i < v.len()
        invariant
            i <= v@.len(),
            tc@ == t@,
            forall|j: int| 0 <= j < i ==> string_views(v@)[j] != t@,
        decreases v.len() - i,
    {
        if crate::text::chars_eq(chars_of(v[i].as_str()).as_slice(), tc.as_slice()) {
            assert(string_views(v@)[i as int] == t@);
            return true;
        }
        i = i + 1;
    }
    false
}

fn add_bookable_exec(entries: &mut Vec<BookableMovieShowtimes>, title: &String, page: Option<String>, time: String)
    requires
        titles_distinct(bookable_views(old(entries)@)),
    ensures
        bookable_views(final(entries)@) == add_bookable(bookable_views(old(entries)@), title@, opt_view(page), time@),
{
    let ghost pre = bookable_views(entries@);
    let mut j: usize = 0;
    while j < entries.len()
        invariant
            j <= entries@.len(),
            pre == bookable_views(entries@),
            pre == bookable_views(old(entries)@),
            titles_distinct(pre),
            forall|m: int| 0 <= m < j ==> pre[m].0 != title@,
        decreases entries.len() - j,
    {
        if crate::text::chars_eq(chars_of(entries[j].title.as_str()).as_slice(), chars_of(title.as_str()).as_slice()) {
            let ghost old_entries = entries@;
            let mut e = entries.remove(j);
            let ghost old_e = bookable_view(e);
            if e.movie_page_url.is_none() {
                e.movie_page_url = page;
            }
            if !has_string(&e.showtimes, time.as_str()) {
                e.showtimes.push(time);
                assert(string_views(e.showtimes@) =~= old_e.2.push(time@));
            }
            entries.insert(j, e);
            proof {
                assert(pre[j as int].0 == title@);
                assert(exists|m: int| 0 <= m < pre.len() && pre[m].0 == title@);
                let c = choose|m: int| 0 <= m < pre.len() && pre[m].0 == title@;
                assert(c == j as int) by {
                    if c < j {
                    } else if c > j {
                        assert(pre[j as int].0 != pre[c].0);
                    }
                }
                assert(bookable_index(pre, title@) == Some(j as int));
                assert(entries@ =~= old_entries.update(j as int, e));
                assert(bookable_views(entries@) =~= pre.update(j as int, bookable_view(e)));
            }
            return;
        }
        j = j + 1;
    }
    let mut times: Vec<String> = Vec::new();
    times.push(time);
    entries.push(BookableMovieShowtimes { title: title.clone(), movie_page_url: page, showtimes: times });
    proof {
        assert(bookable_index(pre, title@) is None);
        assert(string_views(entries@.last().showtimes@) =~= seq![time@]);
        assert(bookable_views(entries@) =~= pre.push(bookable_view(entries@.last())));
    }
}

impl CinemaCity {
    /// The bookable showings of a quickbook answer, by movie title.
    pub fn bookable_showtimes(body: &CinemaCityFilmEventsBody) -> (r: Vec<BookableMovieShowtimes>)
        ensures
            bookable_views(r@) == bookable_spec(body.films@, body.events@),
    {
        let events = &body.events;
        let mut out: Vec<BookableMovieShowtimes> = Vec::new();
        let mut i: usize = 0;
        assert(bookable_views(out@) =~= Seq::<BookableView>::empty());
        assert(events@.subrange(0, 0) =~= Seq::<CinemaCityFilmEvent>::empty());
        while i < events.len()
            invariant
                i <= events@.len(),
                events == &body.events,
                bookable_views(out@) == bookable_spec(body.films@, events@.subrange(0, i as int)),
            decreases events.len() - i,
        {
            proof {
                lemma_bookable_distinct(body.films@, events@.subrange(0, i as int));
            }
            assert(events@.subrange(0, i + 1).drop_last() =~= events@.subrange(0, i as int));
            assert(events@.subrange(0, i + 1).last() == events@[i as int]);
            let e = &events[i];
            let bookable = !e.sold_out && match &e.booking_link {
                Some(l) => trim(chars_of(l.as_str()).as_slice()).len() > 0,
                None => false,
            } && !match &e.composite_booking_link {
                Some(c) => c.block_online_sales,
                None => false,
            };
            if bookable {
                match find_film(&body.films, e.film_id.as_str()) {
                    Some(f) => match CinemaCity::extract_showtime_value(e.event_date_time.as_str()) {
                        Some(t) => {
                            let page = match &f.link {
                                Some(l) => CinemaCity::canonicalize_cinema_city_url(l.as_str()),
                                None => None,
                            };
                            add_bookable_exec(&mut out, &f.name, page, t);
                        },
                        None => {},
                    },
                    None => {},
                }
            }
            i = i + 1;
        }
        assert(events@.subrange(0, events@.len() as int) =~= events@);
        out
    }
}

/// The bookable showings of the movie titled `title`.
pub open spec fn bookable_for(entries: Seq<BookableView>, title: Seq<char>) -> Option<BookableView>
    decreases entries.len(),
{
    if entries.len() == 0 {
        None
    } else if entries[0].0 == title {
        Some(entries[0])
    } else {
        bookable_for(entries.drop_first(), title)
    }
}

/// A showing time linked to `url` when it is bookable, and unlinked otherwise.
pub open spec fn relink_time(t: TimeView, shows: Seq<Seq<char>>, url: Seq<char>) -> TimeView {
    (t.0, if shows.contains(t.0) { Some(url) } else { None })
}

pub open spec fn relink_details(
    d: Seq<(Seq<char>, Seq<char>, Seq<TimeView>)>,
    shows: Seq<Seq<char>>,
    url: Seq<char>,
) -> Seq<(Seq<char>, Seq<char>, Seq<TimeView>)> {
    Seq::new(d.len(), |i: int| (d[i].0, d[i].1, Seq::new(d[i].2.len(), |k: int| relink_time(d[i].2[k], shows, url))))
}

/// A movie with its showing times linked to its page where bookable: the page that
/// quickbook gives, or else the one its repertoire entry links; a movie without bookable
/// showings, or without a page, is left as it is.
pub open spec fn relinked_movie(m: RepertoireView, entries: Seq<BookableView>, fallback: Seq<(Seq<char>, Seq<char>)>) -> RepertoireView {
    match bookable_for(entries, m.0) {
        None => m,
        Some(b) => match (if b.1 is Some { b.1 } else { template_value(fallback, m.0) }) {
            None => m,
            Some(url) => (m.0, m.1, m.2, m.3, relink_details(m.4, b.2, url), m.5),
        },
    }
}

fn find_bookable<'a>(entries: &'a Vec<BookableMovieShowtimes>, title: &String) -> (r: Option<&'a BookableMovieShowtimes>)
    ensures
        match r {
            Some(b) => bookable_for(bookable_views(entries@), title@) == Some(bookable_view(*b)),
            None => bookable_for(bookable_views(entries@), title@) is None,
        },
{
    let t = chars_of(title.as_str());
    let mut i: usize = 0;
    assert(bookable_views(entries@).subrange(0, entries@.len() as int) =~= bookable_views(entries@));
    assert(bookable_views(entries@).subrange(0, 0) =~= Seq::<BookableView>::empty());
    while i < entries.len()
        invariant
            i <= entries@.len(),
            t@ == title@,
            bookable_for(bookable_views(entries@), title@) == bookable_for(bookable_views(entries@).subrange(i as int, entries@.len() as int), title@),
        decreases entries.len() - i,
    {
        let ghost rest = bookable_views(entries@).subrange(i as int, entries@.len() as int);
        assert(rest[0] == bookable_view(entries@[i as int]));
        if crate::text::chars_eq(chars_of(entries[i].title.as_str()).as_slice(), t.as_slice()) {
            return Some(&entries[i]);
        }
        assert(rest.drop_first() =~= bookable_views(entries@).subrange(i + 1, entries@.len() as int));
        i = i + 1;
    }
    None
}

fn fallback_url(fallback: &Vec<(String, String)>, title: &String) -> (r: Option<String>)
    ensures
        opt_view(r) == template_value(pair_views(fallback@), title@),
{
    match lookup_value(fallback, chars_of(title.as_str()).as_slice()) {
        Some(v) => Some(string_of(v.as_slice())),
        None => None,
    }
}

fn relink_play_details(details: &Vec<MoviePlayDetails>, shows: &Vec<String>, url: &String) -> (r: Vec<MoviePlayDetails>)
    ensures
        details_views(r@) == relink_details(details_views(details@), string_views(shows@), url@),
{
    let ghost target = relink_details(details_views(details@), string_views(shows@), url@);
    let mut out: Vec<MoviePlayDetails> = Vec::new();
    let mut i: usize = 0;
    while i < details.len()
        invariant
            i <= details@.len(),
            target == relink_details(details_views(details@), string_views(shows@), url@),
            details_views(out@) == target.subrange(0, i as int),
        decreases details.len() - i,
    {
        let d = &details[i];
        let ghost dv = details_views(details@)[i as int];
        assert(dv == crate::showings::details_view(*d));
        let mut times: Vec<MoviePlayTime> = Vec::new();
        let mut k: usize = 0;
        while k < d.play_times.len()
            invariant
                k <= d.play_times@.len(),
                dv == crate::showings::details_view(*d),
                times@.map_values(|t: MoviePlayTime| time_view(t)) == Seq::new(dv.2.len(), |m: int| relink_time(dv.2[m], string_views(shows@), url@)).subrange(0, k as int),
            decreases d.play_times.len() - k,
        {
            let t = &d.play_times[k];
            assert(dv.2[k as int] == time_view(*t));
            let linked = if has_string(shows, t.value.as_str()) { Some(url.clone()) } else { None };
            let ghost before = times@.map_values(|t: MoviePlayTime| time_view(t));
            times.push(MoviePlayTime { value: t.value.clone(), url: linked });
            assert(times@.map_values(|t: MoviePlayTime| time_view(t)) =~= before.push(relink_time(dv.2[k as int], string_views(shows@), url@)));
            k = k + 1;
        }
        let ghost before = details_views(out@);
        let nd = MoviePlayDetails { format: d.format.clone(), play_language: d.play_language.clone(), play_times: times };
        out.push(nd);
        proof {
            assert(Seq::new(dv.2.len(), |m: int| relink_time(dv.2[m], string_views(shows@), url@)).subrange(0, dv.2.len() as int)
                =~= Seq::new(dv.2.len(), |m: int| relink_time(dv.2[m], string_views(shows@), url@)));
            assert(crate::showings::details_view(nd) == target[i as int]);
            assert(details_views(out@) =~= before.push(target[i as int]));
        }
        i = i + 1;
    }
    assert(target.subrange(0, details@.len() as int) =~= target);
    out
}

fn relink_movie(m: Repertoire, entries: &Vec<BookableMovieShowtimes>, fallback: &Vec<(String, String)>) -> (r: Repertoire)
    ensures
        repertoire_view(r) == relinked_movie(repertoire_view(m), bookable_views(entries@), pair_views(fallback@)),
{
    let b = match find_bookable(entries, &m.title) {
        Some(b) => b,
        None => return m,
    };
    let url = match &b.movie_page_url {
        Some(u) => u.clone(),
        None => match fallback_url(fallback, &m.title) {
            Some(u) => u,
            None => return m,
        },
    };
    let play_details = relink_play_details(&m.play_details, &b.showtimes, &url);
    Repertoire {
        title: m.title,
        genres: m.genres,
        play_length: m.play_length,
        original_language: m.original_language,
        play_details,
        lookup_metadata: m.lookup_metadata,
    }
}

impl CinemaCity {
    /// Links each bookable showing time to its movie's page (see `relinked_movie`).
    pub fn apply_bookable_movie_page_links(
        repertoire: &mut Vec<Repertoire>,
        bookable_showtimes: &Vec<BookableMovieShowtimes>,
        fallback_movie_page_urls: &Vec<(String, String)>,
    )
        ensures
            repertoire_views(final(repertoire)@) == Seq::new(old(repertoire)@.len(), |i: int|
                relinked_movie(repertoire_view(old(repertoire)@[i]), bookable_views(bookable_showtimes@), pair_views(fallback_movie_page_urls@))),
    {
        let ghost all = repertoire@;
        let ghost target = Seq::new(all.len(), |i: int| relinked_movie(repertoire_view(all[i]), bookable_views(bookable_showtimes@), pair_views(fallback_movie_page_urls@)));
        let mut items: Vec<Repertoire> = Vec::new();
        std::mem::swap(&mut items, repertoire);
        let n = items.len();
        let mut taken: usize = 0;
        while items.len() > 0
            invariant
                all.len() == n,
                taken <= n,
                items@ == all.subrange(taken as int, all.len() as int),
                target == Seq::new(all.len(), |i: int| relinked_movie(repertoire_view(all[i]), bookable_views(bookable_showtimes@), pair_views(fallback_movie_page_urls@))),
                repertoire_views(repertoire@) == target.subrange(0, taken as int),
            decreases items.len(),
        {
            let m = items.remove(0);
            assert(m == all[taken as int]);
            let r = relink_movie(m, bookable_showtimes, fallback_movie_page_urls);
            let ghost before = repertoire_views(repertoire@);
            repertoire.push(r);
            assert(repertoire_views(repertoire@) =~= before.push(target[taken as int]));
            taken = taken + 1;
            assert(items@ =~= all.subrange(taken as int, all.len() as int));
        }
        assert(target.subrange(0, n as int) =~= target);
    }

    /// The repertoire after the quickbook lookup: with bookable showing times linked when the
    /// lookup answered, unchanged when it failed.
    pub fn finish_repertoire(
        repertoire: Vec<Repertoire>,
        fallback_movie_page_urls: &Vec<(String, String)>,
        quickbook: AppResult<CinemaCityFilmEventsBody>,
        secondary: AppResult<CinemaCityFilmEventsBody>,
    ) -> (r: Vec<Repertoire>)
        ensures
            match quickbook {
                Ok(body) => repertoire_views(r@) == Seq::new(repertoire@.len(), |i: int|
                    crate::quickbook::enriched_movie(
                        relinked_movie(repertoire_view(repertoire@[i]), bookable_spec(body.films@, body.events@), pair_views(fallback_movie_page_urls@)),
                        body.films@,
                        match secondary {
                            Ok(s) => s.films@,
                            Err(_) => Seq::empty(),
                        },
                    )),
                Err(_) => r == repertoire,
            },
    {
        match quickbook {
            Ok(body) => {
                let bookable = CinemaCity::bookable_showtimes(&body);
                let mut out = repertoire;
                let ghost before = out@;
                CinemaCity::apply_bookable_movie_page_links(&mut out, &bookable, fallback_movie_page_urls);
                let secondary_films: Vec<CinemaCityFilmEventFilm> = match secondary {
                    Ok(s) => s.films,
                    Err(_) => Vec::new(),
                };
                let ghost linked = out@;
                let r = CinemaCity::enrich_repertoire(out, &body.films, &secondary_films);
                proof {
                    let lv = Seq::new(before.len(), |i: int|
                        relinked_movie(repertoire_view(before[i]), bookable_spec(body.films@, body.events@), pair_views(fallback_movie_page_urls@)));
                    assert(bookable_views(bookable@) == bookable_spec(body.films@, body.events@));
                    assert(repertoire_views(linked) == lv);
                    assert(repertoire_views(linked).len() == linked.len());
                    assert(linked.len() == before.len());
                    assert forall|i: int| 0 <= i < before.len() implies repertoire_view(#[trigger] linked[i]) == lv[i] by {
                        assert(repertoire_views(linked)[i] == repertoire_view(linked[i]));
                    }
                }
                assert(repertoire_views(r@) =~= Seq::new(repertoire@.len(), |i: int|
                    crate::quickbook::enriched_movie(
                        relinked_movie(repertoire_view(repertoire@[i]), bookable_spec(body.films@, body.events@), pair_views(fallback_movie_page_urls@)),
                        body.films@,
                        secondary_films@,
                    )));
                r
            },
            Err(_) => repertoire,
        }
    }
}

pub open spec fn tenant_spec(rendered_html: Seq<char>) -> Seq<char> {
    match regex_named_group(TENANT_ID_PATTERN@, rendered_html, "tenant_id"@) {
        Some(t) => t,
        None => DEFAULT_CINEMA_CITY_TENANT_ID@,
    }
}

impl CinemaCity {
    /// The quickbook request for a venue's repertoire page: none when no quickbook address is
    /// configured.
    pub fn quickbook_request_url(&self, rendered_html: &str, venue: &CinemaVenue, date: &str) -> (r: Option<String>)
        ensures
            trim_seq(self.quickbook_api_base_url@).len() == 0 ==> r is None,
            trim_seq(self.quickbook_api_base_url@).len() > 0 ==> (r matches Some(u) && u@ ==
                trim_end_char_seq(self.quickbook_api_base_url@, '/') + "/v1/quickbook/"@ + tenant_spec(rendered_html@)
                + "/film-events/in-cinema/"@ + venue.venue_id@ + "/at-date/"@ + date@ + "?attr=&lang="@ + QUICKBOOK_LANGUAGE@),
    {
        if trim(chars_of(self.quickbook_api_base_url.as_str()).as_slice()).len() == 0 {
            return None;
        }
        let tenant = match CinemaCity::extract_tenant_id(rendered_html) {
            Some(t) => t,
            None => DEFAULT_CINEMA_CITY_TENANT_ID.to_owned(),
        };
        Some(self.build_quickbook_film_events_url(tenant.as_str(), venue, date))
    }

    /// The same request as `quickbook_request_url`, in the second language.
    pub fn secondary_quickbook_request_url(&self, rendered_html: &str, venue: &CinemaVenue, date: &str) -> (r: Option<String>)
        ensures
            trim_seq(self.quickbook_api_base_url@).len() == 0 ==> r is None,
            trim_seq(self.quickbook_api_base_url@).len() > 0 ==> (r matches Some(u) && u@ ==
                trim_end_char_seq(self.quickbook_api_base_url@, '/') + "/v1/quickbook/"@ + tenant_spec(rendered_html@)
                + "/film-events/in-cinema/"@ + venue.venue_id@ + "/at-date/"@ + date@ + "?attr=&lang="@ + QUICKBOOK_SECONDARY_LANGUAGE@),
    {
        if trim(chars_of(self.quickbook_api_base_url.as_str()).as_slice()).len() == 0 {
            return None;
        }
        let tenant = match CinemaCity::extract_tenant_id(rendered_html) {
            Some(t) => t,
            None => DEFAULT_CINEMA_CITY_TENANT_ID.to_owned(),
        };
        Some(self.build_quickbook_film_events_url_in(tenant.as_str(), venue, date, QUICKBOOK_SECONDARY_LANGUAGE))
    }
}

/// The error of a quickbook request that could not be sent.
pub fn quickbook_transport_error(error: &str) -> (r: AppError)
    ensures
        r matches AppError::Http(m) && m@ == "Nie udało się pobrać danych o rezerwacjach z API Cinema City: "@ + error@,
{
    let mut v = chars_of("Nie udało się pobrać danych o rezerwacjach z API Cinema City: ");
    push_str(&mut v, error);
    AppError::Http(string_of(v.as_slice()))
}

/// The error of a quickbook answer whose body could not be read or decoded.
pub fn quickbook_read_error(error: &str) -> (r: AppError)
    ensures
        r matches AppError::Http(m) && m@ == "Nie udało się odczytać danych o rezerwacjach z API Cinema City: "@ + error@,
{
    let mut v = chars_of("Nie udało się odczytać danych o rezerwacjach z API Cinema City: ");
    push_str(&mut v, error);
    AppError::Http(string_of(v.as_slice()))
}

/// The error of a quickbook answer with a client or server error status; none otherwise.
pub fn quickbook_status_error(status: u16) -> (r: Option<AppError>)
    requires
        100 <= status <= 999,
    ensures
        (400 <= status <= 599) ==> (r matches Some(AppError::Http(m)) && m@ ==
            "API Cinema City zwróciło błąd podczas pobierania danych o rezerwacjach: status "@ + crate::tmdb::http_status_text(status)),
        !(400 <= status <= 599) ==> r is None,
{
    if !(400 <= status && status <= 599) {
        return None;
    }
    let mut v = chars_of("API Cinema City zwróciło błąd podczas pobierania danych o rezerwacjach: status ");
    let t = crate::tmdb::status_text(status);
    push_str(&mut v, t.as_str());
    Some(AppError::Http(string_of(v.as_slice())))
}

/// Linking bookable showings changes nothing but the links of showing times: the movie's
/// texts, metadata, groups and showing times stay, and a time keeps its link only where the
/// quickbook answer leaves the movie alone.
pub proof fn lemma_relink_keeps_showings(m: RepertoireView, entries: Seq<BookableView>, fallback: Seq<(Seq<char>, Seq<char>)>)
    ensures
        relinked_movie(m, entries, fallback).0 == m.0,
        relinked_movie(m, entries, fallback).1 == m.1,
        relinked_movie(m, entries, fallback).2 == m.2,
        relinked_movie(m, entries, fallback).3 == m.3,
        relinked_movie(m, entries, fallback).5 == m.5,
        relinked_movie(m, entries, fallback).4.len() == m.4.len(),
        forall|i: int| 0 <= i < m.4.len() ==> {
            let d = #[trigger] relinked_movie(m, entries, fallback).4[i];
            &&& d.0 == m.4[i].0
            &&& d.1 == m.4[i].1
            &&& d.2.len() == m.4[i].2.len()
            &&& forall|k: int| 0 <= k < m.4[i].2.len() ==> (#[trigger] d.2[k]).0 == m.4[i].2[k].0
        },
{
}

} // verus!
