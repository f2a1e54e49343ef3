//! The Multikino chain: its venues and repertoire from the showings API, and how the API's
//! answers are classified.
use crate::common::{lookup_text_spec, normalize_lookup_text, opt_view, string_views, MISSING_DATA_LABEL};
use crate::domain::{reordered, sort_venues_by_key, venue_view, venue_views, CinemaChainId, CinemaVenue, MovieLookupMetadata, MoviePlayDetails, MoviePlayTime, Repertoire};
use crate::error::{AppError, AppResult};
use crate::helios::{trim_end_char, trim_end_char_seq, trim_start_char, trim_start_char_seq};
use crate::ordering::{index_ints, key_views, stable_text_order, text_order_of};
use crate::retry::{RetryDirective, RetryPolicy};
use crate::showings::{
    add_showing, add_to_groups, byte_slice, byte_slice_spec, details_views, genre_tags_spec, group_showings,
    groups_distinct, metadata_view, normalize_genre_tags, parse_year_from_date, repertoire_view,
    repertoire_views, time_view, year_prefix_spec, RepertoireView, TimeView,
};
use crate::text::{
    chars_eq, chars_of, decimal_seq, eq_str, i64_to_decimal, join, join_seq, push_all, push_str,
    signed_decimal_seq, split_on, split_seq, starts_with, starts_with_seq, string_of, trim, trim_seq,
    u64_to_decimal, views_of,
};
use crate::tmdb::{http_status_text, status_text};
use vstd::prelude::*;

verus! {

pub const DEFAULT_MULTIKINO_BASE_URL: &'static str = "https://www.multikino.pl";

pub const DEFAULT_MULTIKINO_SHOWINGS_API_BASE_URL: &'static str = "https://www.multikino.pl/api/microservice/showings";

/// The query of a films request: sessions and their attributes included.
pub const MULTIKINO_FILMS_QUERY: &'static str = "minEmbargoLevel=3&includesSession=true&includeSessionAttributes=true";

/// The query of an attribute groups request.
pub const MULTIKINO_ATTRIBUTE_GROUPS_QUERY: &'static str = "minEmbargoLevel=2";

/// The attribute group that names the showing formats.
pub const FORMAT_GROUP_NAME: &'static str = "Rodzaj pokazu";

/// The attribute group that names the language versions.
pub const LANGUAGE_GROUP_NAME: &'static str = "Wersja językowa";

/// Session attributes that are never shown as a format.
pub open spec fn ignored_session_attributes() -> Seq<Seq<char>> {
    seq!["Single Seat"@, "SUPERHIT"@]
}

/// The Multikino client's addresses and retry policy.
#[derive(Debug, Clone, PartialEq, Eq)]
pub struct Multikino {
    pub base_url: String,
    pub showings_api_base_url: String,
    pub retry_policy: RetryPolicy,
}

impl Multikino {
    pub fn new(base_url: String) -> (r: Self)
        ensures
            r.base_url == base_url,
            r.showings_api_base_url@ == DEFAULT_MULTIKINO_SHOWINGS_API_BASE_URL@,
            r.retry_policy.max_attempts_spec() == 4,
            r.retry_policy.initial_delay_spec() == 250 * crate::retry::NANOS_PER_MILLI,
            r.retry_policy.max_delay_spec() == 2000 * crate::retry::NANOS_PER_MILLI,
    {
        Multikino {
            base_url,
            showings_api_base_url: DEFAULT_MULTIKINO_SHOWINGS_API_BASE_URL.to_owned(),
            retry_policy: RetryPolicy::network_requests(),
        }
    }

    pub fn with_retry_policy(self, retry_policy: RetryPolicy) -> (r: Self)
        ensures
            r.base_url == self.base_url,
            r.showings_api_base_url == self.showings_api_base_url,
            r.retry_policy == retry_policy,
    {
        Multikino { base_url: self.base_url, showings_api_base_url: self.showings_api_base_url, retry_policy }
    }

    pub fn with_showings_api_base_url(self, showings_api_base_url: String) -> (r: Self)
        ensures
            r.base_url == self.base_url,
            r.showings_api_base_url == showings_api_base_url,
            r.retry_policy == self.retry_policy,
    {
        Multikino { base_url: self.base_url, showings_api_base_url, retry_policy: self.retry_policy }
    }

    pub open spec fn api_root(&self) -> Seq<char> {
        trim_end_char_seq(self.showings_api_base_url@, '/')
    }

    /// The address of the venue list.
    pub fn venues_url(&self) -> (r: String)
        ensures
            r@ == self.api_root() + "/cinemas"@,
    {
        let mut v = trim_end_char(chars_of(self.showings_api_base_url.as_str()).as_slice(), '/');
        push_str(&mut v, "/cinemas");
        string_of(v.as_slice())
    }

    /// The address of a venue's films with their sessions.
    pub fn films_url(&self, venue_id: &str) -> (r: String)
        ensures
            r@ == self.api_root() + "/cinemas/"@ + trim_seq(venue_id@) + "/films?"@ + MULTIKINO_FILMS_QUERY@,
    {
        let mut v = trim_end_char(chars_of(self.showings_api_base_url.as_str()).as_slice(), '/');
        push_str(&mut v, "/cinemas/");
        let id = trim(chars_of(venue_id).as_slice());
        push_all(&mut v, id.as_slice());
        push_str(&mut v, "/films?");
        push_str(&mut v, MULTIKINO_FILMS_QUERY);
        string_of(v.as_slice())
    }

    /// The address of a venue's showing attribute groups.
    pub fn attribute_groups_url(&self, venue_id: &str) -> (r: String)
        ensures
            r@ == self.api_root() + "/attributes/showingAttributeGroups?cinemaId="@ + trim_seq(venue_id@) + "&"@
                + MULTIKINO_ATTRIBUTE_GROUPS_QUERY@,
    {
        let mut v = trim_end_char(chars_of(self.showings_api_base_url.as_str()).as_slice(), '/');
        push_str(&mut v, "/attributes/showingAttributeGroups?cinemaId=");
        let id = trim(chars_of(venue_id).as_slice());
        push_all(&mut v, id.as_slice());
        push_str(&mut v, "&");
        push_str(&mut v, MULTIKINO_ATTRIBUTE_GROUPS_QUERY);
        string_of(v.as_slice())
    }
}

/// The envelope of every API answer.
#[derive(Debug, Clone, PartialEq, Eq)]
pub struct MultikinoApiResponse<T> {
    pub result: T,
    pub response_code: i32,
    pub error_message: Option<String>,
}

/// The error of an answer whose response code is not 0: the API's message, or the code.
pub open spec fn api_error_message(operation: Seq<char>, response_code: i32, error_message: Option<Seq<char>>) -> Seq<char> {
    "API Multikino zwróciło błąd podczas "@ + operation + ": "@ + match error_message {
        Some(m) => m,
        None => "kod "@ + signed_decimal_seq(response_code as int),
    }
}

impl<T> MultikinoApiResponse<T> {
    /// The result, when the response code is 0.
    pub fn into_result(self, operation: &str) -> (r: AppResult<T>)
        ensures
            self.response_code == 0 ==> r == Ok::<T, AppError>(self.result),
            self.response_code != 0 ==> (r matches Err(AppError::Http(m))
                && m@ == api_error_message(operation@, self.response_code, opt_view(self.error_message))),
    {
        if self.response_code == 0 {
            return Ok(self.result);
        }
        let mut v = chars_of("API Multikino zwróciło błąd podczas ");
        push_str(&mut v, operation);
        push_str(&mut v, ": ");
        match self.error_message {
            Some(m) => push_str(&mut v, m.as_str()),
            None => {
                push_str(&mut v, "kod ");
                let code = i64_to_decimal(self.response_code as i64);
                push_all(&mut v, code.as_slice());
            },
        }
        Err(AppError::Http(string_of(v.as_slice())))
    }
}

/// The message of a request that could not be sent.
pub open spec fn send_error_message(operation: Seq<char>, error: Seq<char>) -> Seq<char> {
    "Nie udało się pobrać danych z API Multikino podczas "@ + operation + ": "@ + error
}

/// The message of an answer whose body could not be read or decoded.
pub open spec fn read_error_message(operation: Seq<char>, error: Seq<char>) -> Seq<char> {
    "Nie udało się odczytać odpowiedzi z API Multikino podczas "@ + operation + ": "@ + error
}

/// The message of an answer with a failing status.
pub open spec fn status_error_message(operation: Seq<char>, status: u16) -> Seq<char> {
    "API Multikino zwróciło błąd podczas "@ + operation + ": status "@ + http_status_text(status)
}

fn message_with(prefix: &str, operation: &str, detail: &str) -> (r: String)
    ensures
        r@ == prefix@ + operation@ + ": "@ + detail@,
{
    let mut v = chars_of(prefix);
    push_str(&mut v, operation);
    push_str(&mut v, ": ");
    push_str(&mut v, detail);
    string_of(v.as_slice())
}

/// A request that could not be sent: retried when it timed out or could not connect.
pub fn classify_send_error(operation: &str, error: &str, is_timeout: bool, is_connect: bool) -> (r: RetryDirective<AppError>)
    ensures
        (is_timeout || is_connect) ==> (r matches RetryDirective::Retry(AppError::Http(m)) && m@ == send_error_message(operation@, error@)),
        !(is_timeout || is_connect) ==> (r matches RetryDirective::Fail(AppError::Http(m)) && m@ == send_error_message(operation@, error@)),
{
    let error = AppError::Http(message_with("Nie udało się pobrać danych z API Multikino podczas ", operation, error));
    if is_timeout || is_connect {
        RetryDirective::retry(error)
    } else {
        RetryDirective::fail(error)
    }
}

/// An answer whose body could not be read: retried when it timed out.
pub fn classify_read_error(operation: &str, error: &str, is_timeout: bool) -> (r: RetryDirective<AppError>)
    ensures
        is_timeout ==> (r matches RetryDirective::Retry(AppError::Http(m)) && m@ == read_error_message(operation@, error@)),
        !is_timeout ==> (r matches RetryDirective::Fail(AppError::Http(m)) && m@ == read_error_message(operation@, error@)),
{
    let error = AppError::Http(message_with("Nie udało się odczytać odpowiedzi z API Multikino podczas ", operation, error));
    if is_timeout {
        RetryDirective::retry(error)
    } else {
        RetryDirective::fail(error)
    }
}

/// An answer whose body is not the JSON expected: never retried.
pub fn decode_error(operation: &str, error: &str) -> (r: RetryDirective<AppError>)
    ensures
        r matches RetryDirective::Fail(AppError::Http(m)) && m@ == read_error_message(operation@, error@),
{
    RetryDirective::fail(AppError::Http(message_with("Nie udało się odczytać odpowiedzi z API Multikino podczas ", operation, error)))
}

/// A status the API may answer differently when asked again.
pub open spec fn retryable_status(status: u16) -> bool {
    (500 <= status <= 599) || status == 429 || status == 408
}

/// What a request does with the status of its answer: `None` to read the body; server
/// errors, "too many requests" and "request timeout" are retried (after the delay that the
/// answer's `Retry-After` asks for, when it gives one), other client errors fail.
pub fn classify_status(operation: &str, status: u16, retry_after_nanos: Option<u128>) -> (r: Option<RetryDirective<AppError>>)
    requires
        100 <= status <= 999,
    ensures
        retryable_status(status) ==> match retry_after_nanos {
            Some(d) => (r matches Some(RetryDirective::RetryAfter { error: AppError::Http(m), delay_nanos })
                && m@ == status_error_message(operation@, status) && delay_nanos == d),
            None => (r matches Some(RetryDirective::Retry(AppError::Http(m))) && m@ == status_error_message(operation@, status)),
        },
        !retryable_status(status) && 400 <= status <= 499 ==> (r matches Some(RetryDirective::Fail(AppError::Http(m))) && m@ == status_error_message(operation@, status)),
        !retryable_status(status) && !(400 <= status <= 499) ==> r is None,
{
    let retryable = (500 <= status && status <= 599) || status == 429 || status == 408;
    if !retryable && !(400 <= status && status <= 499) {
        return None;
    }
    let text = status_text(status);
    let mut v = chars_of("API Multikino zwróciło błąd podczas ");
    push_str(&mut v, operation);
    push_str(&mut v, ": status ");
    push_str(&mut v, text.as_str());
    let error = AppError::Http(string_of(v.as_slice()));
    if retryable {
        match retry_after_nanos {
            Some(delay) => Some(RetryDirective::retry_after(error, delay)),
            None => Some(RetryDirective::retry(error)),
        }
    } else {
        Some(RetryDirective::fail(error))
    }
}

/// A cinema of the venue list.
#[derive(Debug, Clone, PartialEq, Eq)]
pub struct MultikinoCinema {
    pub cinema_id: String,
    pub cinema_name: String,
    pub full_name: Option<String>,
}

/// A group of cinemas of the venue list.
#[derive(Debug, Clone, PartialEq, Eq)]
pub struct MultikinoCinemaGroup {
    pub cinemas: Vec<MultikinoCinema>,
}

/// The cinemas of all groups, group by group.
pub open spec fn all_cinemas(groups: Seq<MultikinoCinemaGroup>) -> Seq<MultikinoCinema>
    decreases groups.len(),
{
    if groups.len() == 0 {
        Seq::empty()
    } else {
        all_cinemas(groups.drop_last()) + groups.last().cinemas@
    }
}

/// A cinema counts by its id, trimmed, when that is not blank.
pub open spec fn cinema_key(c: MultikinoCinema) -> Option<Seq<char>> {
    if trim_seq(c.cinema_id@).len() > 0 { Some(trim_seq(c.cinema_id@)) } else { None }
}

/// The name a cinema is listed under: its full name, or else its name, trimmed.
pub open spec fn cinema_name_spec(c: MultikinoCinema) -> Seq<char> {
    match c.full_name {
        Some(f) => trim_seq(f@),
        None => trim_seq(c.cinema_name@),
    }
}

pub open spec fn cinema_seen_before(cs: Seq<MultikinoCinema>, n: int, id: Seq<char>) -> bool {
    exists|j: int| 0 <= j < n && #[trigger] cinema_key(cs[j]) == Some(id)
}

/// The cinemas listed, as (trimmed id, name), in the order given: each the first with its
/// trimmed id, with a name.
pub open spec fn listed_cinemas(cs: Seq<MultikinoCinema>) -> Seq<(Seq<char>, Seq<char>)>
    decreases cs.len(),
{
    if cs.len() == 0 {
        Seq::empty()
    } else {
        let pre = listed_cinemas(cs.drop_last());
        let n = cs.len() - 1;
        let c = cs[n];
        if cinema_key(c) is Some && !cinema_seen_before(cs, n, trim_seq(c.cinema_id@)) && cinema_name_spec(c).len() > 0 {
            pre.push((trim_seq(c.cinema_id@), cinema_name_spec(c)))
        } else {
            pre
        }
    }
}

pub open spec fn listed_names(l: Seq<(Seq<char>, Seq<char>)>) -> Seq<Seq<char>> {
    Seq::new(l.len(), |i: int| l[i].1)
}

/// The venues of the venue list: the cinemas listed, sorted by name (equal names in list
/// order).
pub open spec fn multikino_venues_spec(groups: Seq<MultikinoCinemaGroup>) -> Seq<(Seq<char>, Seq<char>, Seq<char>)> {
    let l = listed_cinemas(all_cinemas(groups));
    reordered(Seq::new(l.len(), |i: int| ("multikino"@, l[i].0, l[i].1)), text_order_of(listed_names(l)))
}

proof fn lemma_listed_step(cs: Seq<MultikinoCinema>, c: MultikinoCinema)
    ensures
        listed_cinemas(cs.push(c)) == ({
            let pre = listed_cinemas(cs);
            if cinema_key(c) is Some && !cinema_seen_before(cs, cs.len() as int, trim_seq(c.cinema_id@)) && cinema_name_spec(c).len() > 0 {
                pre.push((trim_seq(c.cinema_id@), cinema_name_spec(c)))
            } else {
                pre
            }
        }),
{
    let all = cs.push(c);
    assert(all.drop_last() =~= cs);
    let id = trim_seq(c.cinema_id@);
    if cinema_seen_before(all, cs.len() as int, id) {
        let j = choose|j: int| 0 <= j < cs.len() && #[trigger] cinema_key(all[j]) == Some(id);
        assert(all[j] == cs[j]);
        assert(cinema_seen_before(cs, cs.len() as int, id));
    }
    if cinema_seen_before(cs, cs.len() as int, id) {
        let j = choose|j: int| 0 <= j < cs.len() && #[trigger] cinema_key(cs[j]) == Some(id);
        assert(all[j] == cs[j]);
        assert(cinema_seen_before(all, cs.len() as int, id));
    }
}

fn cinema_name_of(c: &MultikinoCinema) -> (r: Vec<char>)
    ensures
        r@ == cinema_name_spec(*c),
{
    match &c.full_name {
        Some(f) => trim(chars_of(f.as_str()).as_slice()),
        None => trim(chars_of(c.cinema_name.as_str()).as_slice()),
    }
}

impl Multikino {
    /// The venues of the venue list, sorted by name.
    pub fn parse_venues(groups: &Vec<MultikinoCinemaGroup>) -> (r: Vec<CinemaVenue>)
        ensures
            venue_views(r@) == multikino_venues_spec(groups@),
    {
        let ghost mut done: Seq<MultikinoCinema> = Seq::empty();
        let mut seen: Vec<Vec<char>> = Vec::new();
        let mut listed: Vec<CinemaVenue> = Vec::new();
        let mut names: Vec<Vec<char>> = Vec::new();
        let mut i: usize = 0;
        while i < groups.len()
            invariant
                i <= groups@.len(),
                done == all_cinemas(groups@.subrange(0, i as int)),
                forall|id: Seq<char>| views_of(seen@).contains(id) == cinema_seen_before(done, done.len() as int, id),
                venue_views(listed@) == Seq::new(listed_cinemas(done).len(), |k: int| ("multikino"@, listed_cinemas(done)[k].0, listed_cinemas(done)[k].1)),
                views_of(names@) == listed_names(listed_cinemas(done)),
            decreases groups.len() - i,
        {
            let cinemas = &groups[i].cinemas;
            let ghost start = done;
            let mut j: usize = 0;
            while j < cinemas.len()
                invariant
                    i < groups@.len(),
                    cinemas == &groups@[i as int].cinemas,
                    j <= cinemas@.len(),
                    start == all_cinemas(groups@.subrange(0, i as int)),
                    done == start + cinemas@.subrange(0, j as int),
                    forall|id: Seq<char>| views_of(seen@).contains(id) == cinema_seen_before(done, done.len() as int, id),
                    venue_views(listed@) == Seq::new(listed_cinemas(done).len(), |k: int| ("multikino"@, listed_cinemas(done)[k].0, listed_cinemas(done)[k].1)),
                    views_of(names@) == listed_names(listed_cinemas(done)),
                decreases cinemas.len() - j,
            {
                let c = &cinemas[j];
                proof {
                    lemma_listed_step(done, *c);
                }
                let ghost before_seen = views_of(seen@);
                let ghost before_listed = venue_views(listed@);
                let ghost before_names = views_of(names@);
                let ghost next = done.push(*c);
                assert(forall|id: Seq<char>| before_seen.contains(id) == cinema_seen_before(done, done.len() as int, id));
                let id = trim(chars_of(c.cinema_id.as_str()).as_slice());
                let key_present = id.len() > 0;
                if key_present {
                    let already = crate::matching::contains_word(&seen, id.as_slice());
                    if !already {
                        seen.push(id.clone());
                        let name = cinema_name_of(c);
                        if name.len() > 0 {
                            listed.push(CinemaVenue {
                                chain_id: CinemaChainId::Multikino.as_str().to_owned(),
                                venue_id: string_of(id.as_slice()),
                                venue_name: string_of(name.as_slice()),
                            });
                            names.push(name);
                            proof {
                                reveal_strlit("multikino");
                                assert(venue_views(listed@) =~= before_listed.push(("multikino"@, trim_seq(c.cinema_id@), cinema_name_spec(*c))));
                                assert(views_of(names@) =~= before_names.push(cinema_name_spec(*c)));
                            }
                        }
                    }
                }
                proof {
                    assert forall|x: Seq<char>| views_of(seen@).contains(x) == cinema_seen_before(next, next.len() as int, x) by {
                        if cinema_seen_before(next, next.len() as int, x) {
                            let k = choose|k: int| 0 <= k < next.len() && #[trigger] cinema_key(next[k]) == Some(x);
                            if k < done.len() {
                                assert(next[k] == done[k]);
                                assert(cinema_seen_before(done, done.len() as int, x));
                                assert(before_seen.contains(x));
                                let m = choose|m: int| 0 <= m < before_seen.len() && before_seen[m] == x;
                                assert(views_of(seen@)[m] == x);
                            } else {
                                assert(next[k] == *c);
                                assert(x == trim_seq(c.cinema_id@));
                                if !before_seen.contains(x) {
                                    assert(views_of(seen@)[before_seen.len() as int] == x);
                                }
                            }
                        }
                        if views_of(seen@).contains(x) {
                            let m = choose|m: int| 0 <= m < views_of(seen@).len() && views_of(seen@)[m] == x;
                            if m < before_seen.len() {
                                assert(before_seen[m] == x);
                                assert(before_seen.contains(x));
                                assert(cinema_seen_before(done, done.len() as int, x));
                                let k = choose|k: int| 0 <= k < done.len() && #[trigger] cinema_key(done[k]) == Some(x);
                                assert(next[k] == done[k]);
                            } else {
                                assert(x == trim_seq(c.cinema_id@));
                                assert(next[done.len() as int] == *c);
                            }
                        }
                    }
                    assert(cinemas@.subrange(0, j + 1) =~= cinemas@.subrange(0, j as int).push(*c));
                    assert(next =~= start + cinemas@.subrange(0, j + 1));
                    done = next;
                }
                j = j + 1;
            }
            proof {
                assert(cinemas@.subrange(0, cinemas@.len() as int) =~= cinemas@);
                assert(groups@.subrange(0, i + 1).drop_last() =~= groups@.subrange(0, i as int));
            }
            i = i + 1;
        }
        proof {
            assert(groups@.subrange(0, groups@.len() as int) =~= groups@);
        }
        sort_venues_by_key(&listed, &names)
    }
}

/// An attribute of a session, or of an attribute group.
#[derive(Debug, Clone, PartialEq, Eq)]
pub struct MultikinoShowingAttribute {
    pub name: String,
    pub attribute_type: String,
}

/// An attribute group of the venue: its name and its attributes.
#[derive(Debug, Clone, PartialEq, Eq)]
pub struct MultikinoShowingAttributeGroup {
    pub name: String,
    pub showing_attributes: Vec<MultikinoShowingAttribute>,
}

/// The attribute names that the venue's groups declare as formats and as language versions
/// (each name may occur more than once; only membership counts).
#[derive(Debug, Clone, PartialEq, Eq)]
pub struct AttributeRules {
    pub format_names: Vec<String>,
    pub language_names: Vec<String>,
}

impl AttributeRules {
    /// Rules that declare nothing.
    pub fn empty() -> (r: Self)
        ensures
            r.format_names@.len() == 0,
            r.language_names@.len() == 0,
    {
        AttributeRules { format_names: Vec::new(), language_names: Vec::new() }
    }
}

/// The attribute names of a group, trimmed, without empty ones.
pub open spec fn group_attribute_names(attrs: Seq<MultikinoShowingAttribute>) -> Seq<Seq<char>>
    decreases attrs.len(),
{
    if attrs.len() == 0 {
        Seq::empty()
    } else {
        let pre = group_attribute_names(attrs.drop_last());
        let n = trim_seq(attrs.last().name@);
        if n.len() > 0 { pre.push(n) } else { pre }
    }
}

/// The attribute names of all groups called `group_name`.
pub open spec fn rule_names(groups: Seq<MultikinoShowingAttributeGroup>, group_name: Seq<char>) -> Seq<Seq<char>>
    decreases groups.len(),
{
    if groups.len() == 0 {
        Seq::empty()
    } else {
        let pre = rule_names(groups.drop_last(), group_name);
        if groups.last().name@ == group_name {
            pre + group_attribute_names(groups.last().showing_attributes@)
        } else {
            pre
        }
    }
}

fn add_group_names(target: &mut Vec<String>, attrs: &Vec<MultikinoShowingAttribute>)
    ensures
        string_views(final(target)@) == string_views(old(target)@) + group_attribute_names(attrs@),
{
    let ghost start = string_views(target@);
    let mut k: usize = 0;
    while k < attrs.len()
        invariant
            k <= attrs@.len(),
            string_views(target@) == start + group_attribute_names(attrs@.subrange(0, k as int)),
        decreases attrs.len() - k,
    {
        assert(attrs@.subrange(0, k + 1).drop_last() =~= attrs@.subrange(0, k as int));
        let n = trim(chars_of(attrs[k].name.as_str()).as_slice());
        if n.len() > 0 {
            let ghost before = string_views(target@);
            target.push(string_of(n.as_slice()));
            assert(string_views(target@) =~= before.push(n@));
        }
        k = k + 1;
    }
    assert(attrs@.subrange(0, attrs@.len() as int) =~= attrs@);
}

impl Multikino {
    /// The format and language names that the venue's attribute groups declare.
    pub fn extract_attribute_rules(groups: &Vec<MultikinoShowingAttributeGroup>) -> (r: AttributeRules)
        ensures
            string_views(r.format_names@) == rule_names(groups@, FORMAT_GROUP_NAME@),
            string_views(r.language_names@) == rule_names(groups@, LANGUAGE_GROUP_NAME@),
    {
        let mut rules = AttributeRules::empty();
        let mut i: usize = 0;
        assert(string_views(rules.format_names@) =~= Seq::<Seq<char>>::empty());
        assert(string_views(rules.language_names@) =~= Seq::<Seq<char>>::empty());
        while i < groups.len()
            invariant
                i <= groups@.len(),
                string_views(rules.format_names@) == rule_names(groups@.subrange(0, i as int), FORMAT_GROUP_NAME@),
                string_views(rules.language_names@) == rule_names(groups@.subrange(0, i as int), LANGUAGE_GROUP_NAME@),
            decreases groups.len() - i,
        {
            assert(groups@.subrange(0, i + 1).drop_last() =~= groups@.subrange(0, i as int));
            let group = &groups[i];
            let name = chars_of(group.name.as_str());
            if eq_str(name.as_slice(), FORMAT_GROUP_NAME) {
                add_group_names(&mut rules.format_names, &group.showing_attributes);
                proof {
                    reveal_strlit("Rodzaj pokazu");
                    reveal_strlit("Wersja językowa");
                    assert(FORMAT_GROUP_NAME@.len() == 13);
                    assert(LANGUAGE_GROUP_NAME@.len() == 15);
                    assert(group.name@ != LANGUAGE_GROUP_NAME@);
                }
            } else if eq_str(name.as_slice(), LANGUAGE_GROUP_NAME) {
                add_group_names(&mut rules.language_names, &group.showing_attributes);
            }
            i = i + 1;
        }
        assert(groups@.subrange(0, groups@.len() as int) =~= groups@);
        rules
    }
}

/// The names of a session's attributes of type `ty` that are shown: trimmed, not empty, not
/// ignored, allowed (when `allowed` names any), and each once.
pub open spec fn attribute_values(
    attrs: Seq<MultikinoShowingAttribute>,
    ty: Seq<char>,
    allowed: Seq<Seq<char>>,
    ignored: Seq<Seq<char>>,
) -> Seq<Seq<char>>
    decreases attrs.len(),
{
    if attrs.len() == 0 {
        Seq::empty()
    } else {
        let pre = attribute_values(attrs.drop_last(), ty, allowed, ignored);
        let a = attrs.last();
        let n = trim_seq(a.name@);
        if a.attribute_type@ != ty || n.len() == 0 || ignored.contains(n) || (allowed.len() > 0 && !allowed.contains(n))
            || pre.contains(n) {
            pre
        } else {
            pre.push(n)
        }
    }
}

/// The shown names, falling back to all names of the type when the allowed names match none.
pub open spec fn collected_values(
    attrs: Seq<MultikinoShowingAttribute>,
    ty: Seq<char>,
    allowed: Seq<Seq<char>>,
    ignored: Seq<Seq<char>>,
) -> Seq<Seq<char>> {
    let v = attribute_values(attrs, ty, allowed, ignored);
    if v.len() == 0 && allowed.len() > 0 {
        attribute_values(attrs, ty, Seq::empty(), ignored)
    } else {
        v
    }
}

/// Values joined with spaces, or the missing-data label when there are none.
pub open spec fn spaced_or_missing(values: Seq<Seq<char>>) -> Seq<char> {
    if values.len() == 0 { MISSING_DATA_LABEL@ } else { join_seq(values, " "@) }
}

pub open spec fn session_format_spec(attrs: Seq<MultikinoShowingAttribute>, rules: AttributeRules) -> Seq<char> {
    spaced_or_missing(collected_values(attrs, "Session"@, string_views(rules.format_names@), ignored_session_attributes()))
}

pub open spec fn session_language_spec(attrs: Seq<MultikinoShowingAttribute>, rules: AttributeRules) -> Seq<char> {
    spaced_or_missing(collected_values(attrs, "Language"@, string_views(rules.language_names@), Seq::empty()))
}

fn has_text(v: &Vec<String>, t: &[char]) -> (r: bool)
    ensures
        r == string_views(v@).contains(t@),
{
    let mut i: usize = 0;
    while i < v.len()
        invariant
            i <= v@.len(),
            forall|j: int| 0 <= j < i ==> string_views(v@)[j] != t@,
        decreases v.len() - i,
    {
        if chars_eq(chars_of(v[i].as_str()).as_slice(), t) {
            assert(string_views(v@)[i as int] == t@);
            return true;
        }
        i = i + 1;
    }
    false
}

fn attribute_values_exec(
    attrs: &Vec<MultikinoShowingAttribute>,
    ty: &str,
    allowed: &Vec<String>,
    use_allowed: bool,
    ignored: &Vec<Vec<char>>,
) -> (r: Vec<Vec<char>>)
    ensures
        views_of(r@) == attribute_values(attrs@, ty@, if use_allowed { string_views(allowed@) } else { Seq::empty() }, views_of(ignored@)),
{
    let ghost allowed_view = if use_allowed { string_views(allowed@) } else { Seq::<Seq<char>>::empty() };
    let restrict = use_allowed && allowed.len() > 0;
    let mut values: Vec<Vec<char>> = Vec::new();
    let mut k: usize = 0;
    while k < attrs.len()
        invariant
            k <= attrs@.len(),
            allowed_view == (if use_allowed { string_views(allowed@) } else { Seq::<Seq<char>>::empty() }),
            restrict == (allowed_view.len() > 0),
            views_of(values@) == attribute_values(attrs@.subrange(0, k as int), ty@, allowed_view, views_of(ignored@)),
        decreases attrs.len() - k,
    {
        assert(attrs@.subrange(0, k + 1).drop_last() =~= attrs@.subrange(0, k as int));
        let a = &attrs[k];
        let n = trim(chars_of(a.name.as_str()).as_slice());
        let same_type = eq_str(chars_of(a.attribute_type.as_str()).as_slice(), ty);
        if same_type && n.len() > 0 && !crate::matching::contains_word(ignored, n.as_slice())
            && (!restrict || has_text(allowed, n.as_slice()))
            && !crate::matching::contains_word(&values, n.as_slice()) {
            let ghost before = views_of(values@);
            values.push(n);
            assert(views_of(values@) =~= before.push(trim_seq(a.name@)));
        }
        k = k + 1;
    }
    assert(attrs@.subrange(0, attrs@.len() as int) =~= attrs@);
    values
}

fn collect_attribute_values(
    attrs: &Vec<MultikinoShowingAttribute>,
    ty: &str,
    allowed: &Vec<String>,
    ignored: &Vec<Vec<char>>,
) -> (r: Vec<Vec<char>>)
    ensures
        views_of(r@) == collected_values(attrs@, ty@, string_views(allowed@), views_of(ignored@)),
{
    let values = attribute_values_exec(attrs, ty, allowed, true, ignored);
    if values.len() == 0 && allowed.len() > 0 {
        attribute_values_exec(attrs, ty, allowed, false, ignored)
    } else {
        values
    }
}

fn spaced_or_missing_exec(values: &Vec<Vec<char>>) -> (r: String)
    ensures
        r@ == spaced_or_missing(views_of(values@)),
{
    if values.len() == 0 {
        MISSING_DATA_LABEL.to_owned()
    } else {
        let sep = chars_of(" ");
        string_of(join(values, sep.as_slice()).as_slice())
    }
}

/// The format of a session: its shown "Session" attributes, without "Single Seat" and
/// "SUPERHIT".
pub fn select_session_format(attrs: &Vec<MultikinoShowingAttribute>, rules: &AttributeRules) -> (r: String)
    ensures
        r@ == session_format_spec(attrs@, *rules),
{
    let mut ignored: Vec<Vec<char>> = Vec::new();
    ignored.push(chars_of("Single Seat"));
    ignored.push(chars_of("SUPERHIT"));
    assert(views_of(ignored@) =~= ignored_session_attributes());
    let values = collect_attribute_values(attrs, "Session", &rules.format_names, &ignored);
    spaced_or_missing_exec(&values)
}

/// The language version of a session: its shown "Language" attributes.
pub fn select_session_language(attrs: &Vec<MultikinoShowingAttribute>, rules: &AttributeRules) -> (r: String)
    ensures
        r@ == session_language_spec(attrs@, *rules),
{
    let ignored: Vec<Vec<char>> = Vec::new();
    assert(views_of(ignored@) =~= Seq::<Seq<char>>::empty());
    let values = collect_attribute_values(attrs, "Language", &rules.language_names, &ignored);
    spaced_or_missing_exec(&values)
}

/// A session of a film: its start, booking and attributes.
#[derive(Debug, Clone, PartialEq, Eq)]
pub struct MultikinoSession {
    pub booking_url: Option<String>,
    pub start_time: String,
    pub is_sold_out: bool,
    pub is_booking_available: bool,
    pub attributes: Vec<MultikinoShowingAttribute>,
}

/// The sessions of a film on one date.
#[derive(Debug, Clone, PartialEq, Eq)]
pub struct MultikinoShowingGroup {
    pub date: String,
    pub sessions: Vec<MultikinoSession>,
}

/// A film of a venue with its sessions.
#[derive(Debug, Clone, PartialEq, Eq)]
pub struct MultikinoFilm {
    pub film_id: String,
    pub film_url: Option<String>,
    pub film_title: String,
    pub original_title: Option<String>,
    pub release_date: Option<String>,
    pub running_time: u16,
    pub is_duration_unknown: bool,
    pub genres: Vec<String>,
    pub showing_groups: Vec<MultikinoShowingGroup>,
}

/// The date part of an API timestamp: its first ten bytes.
pub open spec fn api_date_spec(value: Seq<char>) -> Option<Seq<char>> {
    byte_slice_spec(value, 0, 10)
}

pub fn normalize_api_date(value: &str) -> (r: Option<String>)
    ensures
        opt_view(r) == api_date_spec(value@),
{
    match byte_slice(chars_of(value).as_slice(), 0, 10) {
        Some(d) => Some(string_of(d.as_slice())),
        None => None,
    }
}

/// The time of a start timestamp: the first five bytes after its first `T`.
pub open spec fn showtime_spec(start_time: Seq<char>) -> Option<Seq<char>> {
    let pieces = split_seq(start_time, seq!['T']);
    if pieces.len() >= 2 { byte_slice_spec(pieces[1], 0, 5) } else { None }
}

pub fn extract_showtime_value(start_time: &str) -> (r: Option<String>)
    ensures
        opt_view(r) == showtime_spec(start_time@),
{
    let seps: Vec<char> = vec!['T'];
    let pieces = split_on(chars_of(start_time).as_slice(), seps.as_slice());
    assert(seps@ =~= seq!['T']);
    if pieces.len() >= 2 {
        assert(views_of(pieces@)[1] == pieces@[1]@);
        match byte_slice(pieces[1].as_slice(), 0, 5) {
            Some(t) => Some(string_of(t.as_slice())),
            None => None,
        }
    } else {
        None
    }
}

/// A link of the API made absolute: absolute links as they are, others under the base
/// address; blank links count as none.
pub open spec fn absolute_url_spec(base_url: Seq<char>, value: Seq<char>) -> Option<Seq<char>> {
    let t = trim_seq(value);
    if t.len() == 0 {
        None
    } else if starts_with_seq(t, "http://"@) || starts_with_seq(t, "https://"@) {
        Some(t)
    } else {
        Some(trim_end_char_seq(base_url, '/') + "/"@ + trim_start_char_seq(t, '/'))
    }
}

pub fn build_absolute_url(base_url: &str, value: &str) -> (r: Option<String>)
    ensures
        opt_view(r) == absolute_url_spec(base_url@, value@),
{
    let t = trim(chars_of(value).as_slice());
    if t.len() == 0 {
        return None;
    }
    let http = chars_of("http://");
    let https = chars_of("https://");
    if starts_with(t.as_slice(), http.as_slice()) || starts_with(t.as_slice(), https.as_slice()) {
        return Some(string_of(t.as_slice()));
    }
    let mut v = trim_end_char(chars_of(base_url).as_slice(), '/');
    push_str(&mut v, "/");
    let rest = trim_start_char(t.as_slice(), '/');
    push_all(&mut v, rest.as_slice());
    Some(string_of(v.as_slice()))
}

/// The booking page of a session: none when it is sold out or not bookable.
pub open spec fn booking_url_spec(base_url: Seq<char>, s: MultikinoSession) -> Option<Seq<char>> {
    if s.is_sold_out || !s.is_booking_available {
        None
    } else {
        match s.booking_url {
            Some(u) => absolute_url_spec(base_url, u@),
            None => None,
        }
    }
}

pub fn booking_url_for_session(base_url: &str, session: &MultikinoSession) -> (r: Option<String>)
    ensures
        opt_view(r) == booking_url_spec(base_url@, *session),
{
    if session.is_sold_out || !session.is_booking_available {
        return None;
    }
    match &session.booking_url {
        Some(u) => build_absolute_url(base_url, u.as_str()),
        None => None,
    }
}

/// The running time as shown: minutes, or the missing-data label when unknown.
pub open spec fn play_length_spec(running_time: u16, is_duration_unknown: bool) -> Seq<char> {
    if is_duration_unknown || running_time == 0 {
        MISSING_DATA_LABEL@
    } else {
        decimal_seq(running_time as nat) + " min"@
    }
}

pub fn render_play_length(running_time: u16, is_duration_unknown: bool) -> (r: String)
    ensures
        r@ == play_length_spec(running_time, is_duration_unknown),
{
    if is_duration_unknown || running_time == 0 {
        return MISSING_DATA_LABEL.to_owned();
    }
    let mut v = u64_to_decimal(running_time as u64);
    push_str(&mut v, " min");
    string_of(v.as_slice())
}

/// The original title, trimmed, when it is given and differs from the title in comparison
/// form.
pub open spec fn alternate_titles_spec(title: Seq<char>, original_title: Option<Seq<char>>) -> Seq<Seq<char>> {
    match original_title {
        Some(o) => {
            let t = trim_seq(o);
            if t.len() == 0 || lookup_text_spec(title) == lookup_text_spec(t) { Seq::empty() } else { seq![t] }
        },
        None => Seq::empty(),
    }
}

pub fn collect_alternate_titles(title: &str, original_title: Option<&str>) -> (r: Vec<String>)
    ensures
        string_views(r@) == alternate_titles_spec(title@, match original_title { Some(o) => Some(o@), None => None }),
{
    let mut out: Vec<String> = Vec::new();
    match original_title {
        Some(o) => {
            let t = trim(chars_of(o).as_slice());
            if t.len() > 0 {
                let ts = string_of(t.as_slice());
                let a = normalize_lookup_text(title);
                let b = normalize_lookup_text(ts.as_str());
                if !chars_eq(chars_of(a.as_str()).as_slice(), chars_of(b.as_str()).as_slice()) {
                    out.push(ts);
                    assert(string_views(out@) =~= seq![t@]);
                    return out;
                }
            }
        },
        None => {},
    }
    assert(string_views(out@) =~= Seq::<Seq<char>>::empty());
    out
}

/// The genres as shown: trimmed, without empty ones, joined with commas; or the missing-data
/// label.
pub open spec fn genres_text_spec(genres: Seq<Seq<char>>) -> Seq<char> {
    let parts = crate::text::trimmed_nonempty(genres);
    if parts.len() == 0 { MISSING_DATA_LABEL@ } else { join_seq(parts, ", "@) }
}

pub fn join_or_missing(values: &Vec<String>) -> (r: String)
    ensures
        r@ == genres_text_spec(string_views(values@)),
{
    let mut pieces: Vec<Vec<char>> = Vec::new();
    let mut i: usize = 0;
    while i < values.len()
        invariant
            i <= values@.len(),
            views_of(pieces@) == string_views(values@).subrange(0, i as int),
        decreases values.len() - i,
    {
        let ghost before = views_of(pieces@);
        pieces.push(chars_of(values[i].as_str()));
        assert(views_of(pieces@) =~= before.push(values@[i as int]@));
        assert(string_views(values@).subrange(0, i + 1) =~= string_views(values@).subrange(0, i as int).push(values@[i as int]@));
        i = i + 1;
    }
    assert(string_views(values@).subrange(0, values@.len() as int) =~= string_views(values@));
    let parts = crate::text::trim_pieces_nonempty(&pieces);
    if parts.len() == 0 {
        MISSING_DATA_LABEL.to_owned()
    } else {
        let sep = chars_of(", ");
        string_of(join(&parts, sep.as_slice()).as_slice())
    }
}

/// What the lookup of a film knows from the API.
pub open spec fn film_metadata_spec(base_url: Seq<char>, film: MultikinoFilm) -> crate::showings::MetadataView {
    let premiere = match film.release_date {
        Some(d) => api_date_spec(d@),
        None => None,
    };
    (
        Some(film.film_id@),
        match film.film_url {
            Some(u) => absolute_url_spec(base_url, u@),
            None => None,
        },
        alternate_titles_spec(film.film_title@, opt_view(film.original_title)),
        if film.running_time == 0 || film.is_duration_unknown { None } else { Some(film.running_time) },
        None,
        genre_tags_spec(string_views(film.genres@)),
        match premiere {
            Some(p) => year_prefix_spec(p),
            None => None,
        },
        premiere,
    )
}

pub fn build_lookup_metadata(base_url: &str, film: &MultikinoFilm) -> (r: MovieLookupMetadata)
    ensures
        metadata_view(r) == film_metadata_spec(base_url@, *film),
{
    let original: Option<&str> = match &film.original_title {
        Some(o) => Some(o.as_str()),
        None => None,
    };
    let alternate_titles = collect_alternate_titles(film.film_title.as_str(), original);
    let premiere_date = match &film.release_date {
        Some(d) => normalize_api_date(d.as_str()),
        None => None,
    };
    let production_year = match &premiere_date {
        Some(p) => parse_year_from_date(p.as_str()),
        None => None,
    };
    let movie_page_url = match &film.film_url {
        Some(u) => build_absolute_url(base_url, u.as_str()),
        None => None,
    };
    MovieLookupMetadata {
        chain_movie_id: Some(film.film_id.clone()),
        movie_page_url,
        alternate_titles,
        runtime_minutes: if film.running_time == 0 || film.is_duration_unknown { None } else { Some(film.running_time) },
        original_language_code: None,
        genre_tags: normalize_genre_tags(&film.genres),
        production_year,
        polish_premiere_date: premiere_date,
    }
}

/// The sessions of the groups dated `date`, group by group.
pub open spec fn date_sessions(groups: Seq<MultikinoShowingGroup>, date: Seq<char>) -> Seq<MultikinoSession>
    decreases groups.len(),
{
    if groups.len() == 0 {
        Seq::empty()
    } else {
        let pre = date_sessions(groups.drop_last(), date);
        if api_date_spec(groups.last().date@) == Some(date) {
            pre + groups.last().sessions@
        } else {
            pre
        }
    }
}

pub open spec fn start_times(sessions: Seq<MultikinoSession>) -> Seq<Seq<char>> {
    Seq::new(sessions.len(), |i: int| sessions[i].start_time@)
}

/// The sessions by start time (a stable sort).
pub open spec fn sorted_sessions(sessions: Seq<MultikinoSession>) -> Seq<MultikinoSession> {
    reordered(sessions, text_order_of(start_times(sessions)))
}

/// A session as a showing: format, language, and time with its booking page; none when its
/// start has no time.
pub open spec fn session_item(base_url: Seq<char>, rules: AttributeRules, s: MultikinoSession) -> Option<(Seq<char>, Seq<char>, TimeView)> {
    match showtime_spec(s.start_time@) {
        Some(t) => Some((session_format_spec(s.attributes@, rules), session_language_spec(s.attributes@, rules), (t, booking_url_spec(base_url, s)))),
        None => None,
    }
}

pub open spec fn session_items(base_url: Seq<char>, rules: AttributeRules, sessions: Seq<MultikinoSession>) -> Seq<(Seq<char>, Seq<char>, TimeView)>
    decreases sessions.len(),
{
    if sessions.len() == 0 {
        Seq::empty()
    } else {
        let pre = session_items(base_url, rules, sessions.drop_last());
        match session_item(base_url, rules, sessions.last()) {
            Some(item) => pre.push(item),
            None => pre,
        }
    }
}

/// The repertoire entry of a film on `date`: its sessions that day by start time, grouped by
/// format and language; none when it has no session with a time that day.
pub open spec fn film_repertoire_spec(base_url: Seq<char>, date: Seq<char>, film: MultikinoFilm, rules: AttributeRules) -> Option<RepertoireView> {
    let ds = date_sessions(film.showing_groups@, date);
    let showings = group_showings(session_items(base_url, rules, sorted_sessions(ds)));
    if ds.len() == 0 || showings.len() == 0 {
        None
    } else {
        Some((
            film.film_title@,
            genres_text_spec(string_views(film.genres@)),
            play_length_spec(film.running_time, film.is_duration_unknown),
            MISSING_DATA_LABEL@,
            showings,
            film_metadata_spec(base_url, film),
        ))
    }
}

/// The positions (group, session) of the sessions dated `date`, in group order.
fn sessions_on_date(groups: &Vec<MultikinoShowingGroup>, date: &str) -> (r: Vec<(usize, usize)>)
    ensures
        r@.len() == date_sessions(groups@, date@).len(),
        forall|k: int| 0 <= k < r@.len() ==> {
            &&& (#[trigger] r@[k]).0 < groups@.len()
            &&& r@[k].1 < groups@[r@[k].0 as int].sessions@.len()
            &&& groups@[r@[k].0 as int].sessions@[r@[k].1 as int] == date_sessions(groups@, date@)[k]
        },
{
    let mut out: Vec<(usize, usize)> = Vec::new();
    let mut i: usize = 0;
    while i < groups.len()
        invariant
            i <= groups@.len(),
            out@.len() == date_sessions(groups@.subrange(0, i as int), date@).len(),
            forall|k: int| 0 <= k < out@.len() ==> {
                &&& (#[trigger] out@[k]).0 < groups@.len()
                &&& out@[k].1 < groups@[out@[k].0 as int].sessions@.len()
                &&& groups@[out@[k].0 as int].sessions@[out@[k].1 as int] == date_sessions(groups@.subrange(0, i as int), date@)[k]
            },
        decreases groups.len() - i,
    {
        let ghost pre = date_sessions(groups@.subrange(0, i as int), date@);
        assert(groups@.subrange(0, i + 1).drop_last() =~= groups@.subrange(0, i as int));
        assert(groups@.subrange(0, i + 1).last() == groups@[i as int]);
        let on_date = match normalize_api_date(groups[i].date.as_str()) {
            Some(d) => chars_eq(chars_of(d.as_str()).as_slice(), chars_of(date).as_slice()),
            None => false,
        };
        if on_date {
            let sessions = &groups[i].sessions;
            let mut j: usize = 0;
            while j < sessions.len()
                invariant
                    i < groups@.len(),
                    sessions == &groups@[i as int].sessions,
                    j <= sessions@.len(),
                    out@.len() == pre.len() + j,
                    forall|k: int| 0 <= k < out@.len() ==> {
                        &&& (#[trigger] out@[k]).0 < groups@.len()
                        &&& out@[k].1 < groups@[out@[k].0 as int].sessions@.len()
                        &&& groups@[out@[k].0 as int].sessions@[out@[k].1 as int] == (pre + sessions@)[k]
                    },
                decreases sessions.len() - j,
            {
                out.push((i, j));
                j = j + 1;
            }
        } else {
            assert forall|k: int| 0 <= k < out@.len() implies
                groups@[out@[k].0 as int].sessions@[out@[k].1 as int] == date_sessions(groups@.subrange(0, i + 1), date@)[k] by {}
        }
        i = i + 1;
    }
    assert(groups@.subrange(0, groups@.len() as int) =~= groups@);
    out
}

proof fn lemma_items_step(base_url: Seq<char>, rules: AttributeRules, sessions: Seq<MultikinoSession>, k: int)
    requires
        0 <= k < sessions.len(),
    ensures
        session_items(base_url, rules, sessions.subrange(0, k + 1)) == ({
            let pre = session_items(base_url, rules, sessions.subrange(0, k));
            match session_item(base_url, rules, sessions[k]) {
                Some(item) => pre.push(item),
                None => pre,
            }
        }),
{
    assert(sessions.subrange(0, k + 1).drop_last() =~= sessions.subrange(0, k));
    assert(sessions.subrange(0, k + 1).last() == sessions[k]);
}

impl Multikino {
    /// The repertoire entry of one film on `date`.
    pub fn parse_film_repertoire(&self, date: &str, film: &MultikinoFilm, rules: &AttributeRules) -> (r: Option<Repertoire>)
        ensures
            match r {
                Some(m) => film_repertoire_spec(self.base_url@, date@, *film, *rules) == Some(repertoire_view(m)),
                None => film_repertoire_spec(self.base_url@, date@, *film, *rules) is None,
            },
    {
        let groups = &film.showing_groups;
        let positions = sessions_on_date(groups, date);
        let ghost ds = date_sessions(groups@, date@);
        if positions.len() == 0 {
            return None;
        }
        let mut keys: Vec<Vec<char>> = Vec::new();
        let mut k: usize = 0;
        while k < positions.len()
            invariant
                k <= positions@.len(),
                positions@.len() == ds.len(),
                forall|m: int| 0 <= m < positions@.len() ==> {
                    &&& (#[trigger] positions@[m]).0 < groups@.len()
                    &&& positions@[m].1 < groups@[positions@[m].0 as int].sessions@.len()
                    &&& groups@[positions@[m].0 as int].sessions@[positions@[m].1 as int] == ds[m]
                },
                key_views(keys@) == start_times(ds).subrange(0, k as int),
            decreases positions.len() - k,
        {
            let p = positions[k];
            assert(positions@[k as int] == p);
            let ghost before = key_views(keys@);
            keys.push(chars_of(groups[p.0].sessions[p.1].start_time.as_str()));
            assert(key_views(keys@) =~= before.push(ds[k as int].start_time@));
            assert(start_times(ds).subrange(0, k + 1) =~= start_times(ds).subrange(0, k as int).push(ds[k as int].start_time@));
            k = k + 1;
        }
        assert(start_times(ds).subrange(0, ds.len() as int) =~= start_times(ds));
        let order = stable_text_order(&keys);
        let ghost ord = index_ints(order@);
        let ghost sorted = sorted_sessions(ds);
        let mut play_details: Vec<MoviePlayDetails> = Vec::new();
        let mut n: usize = 0;
        assert(sorted.subrange(0, 0) =~= Seq::<MultikinoSession>::empty());
        assert(details_views(play_details@) =~= Seq::<(Seq<char>, Seq<char>, Seq<TimeView>)>::empty());
        while n < order.len()
            invariant
                n <= order@.len(),
                ord == index_ints(order@),
                ord == text_order_of(start_times(ds)),
                crate::ordering::is_text_order(ord, start_times(ds)),
                sorted == reordered(ds, ord),
                positions@.len() == ds.len(),
                forall|m: int| 0 <= m < positions@.len() ==> {
                    &&& (#[trigger] positions@[m]).0 < groups@.len()
                    &&& positions@[m].1 < groups@[positions@[m].0 as int].sessions@.len()
                    &&& groups@[positions@[m].0 as int].sessions@[positions@[m].1 as int] == ds[m]
                },
                groups_distinct(details_views(play_details@)),
                details_views(play_details@) == group_showings(session_items(self.base_url@, *rules, sorted.subrange(0, n as int))),
            decreases order.len() - n,
        {
            proof {
                lemma_items_step(self.base_url@, *rules, sorted, n as int);
            }
            let idx = order[n];
            assert(ord[n as int] == idx as int);
            assert(0 <= idx < positions@.len());
            let p = positions[idx];
            assert(positions@[idx as int] == p);
            let session = &groups[p.0].sessions[p.1];
            assert(*session == sorted[n as int]);
            match extract_showtime_value(session.start_time.as_str()) {
                Some(value) => {
                    let format = select_session_format(&session.attributes, rules);
                    let play_language = select_session_language(&session.attributes, rules);
                    let url = booking_url_for_session(self.base_url.as_str(), session);
                    let play_time = MoviePlayTime { value, url };
                    let ghost pre_items = session_items(self.base_url@, *rules, sorted.subrange(0, n as int));
                    let ghost item = (format@, play_language@, time_view(play_time));
                    assert(session_items(self.base_url@, *rules, sorted.subrange(0, n + 1)) == pre_items.push(item));
                    assert(pre_items.push(item).drop_last() =~= pre_items);
                    add_showing(&mut play_details, format, play_language, play_time);
                },
                None => {},
            }
            n = n + 1;
        }
        assert(sorted.subrange(0, sorted.len() as int) =~= sorted);
        if play_details.len() == 0 {
            return None;
        }
        let genres = join_or_missing(&film.genres);
        let play_length = render_play_length(film.running_time, film.is_duration_unknown);
        let lookup_metadata = build_lookup_metadata(self.base_url.as_str(), film);
        Some(Repertoire {
            title: film.film_title.clone(),
            genres,
            play_length,
            original_language: MISSING_DATA_LABEL.to_owned(),
            play_details,
            lookup_metadata,
        })
    }

    /// The repertoire of `date`: the films, in the API's order, that have sessions with a time
    /// that day.
    pub fn parse_repertoire(&self, date: &str, films: &Vec<MultikinoFilm>, rules: &AttributeRules) -> (r: Vec<Repertoire>)
        ensures
            repertoire_views(r@) == multikino_repertoire_spec(self.base_url@, date@, films@, *rules),
    {
        let mut out: Vec<Repertoire> = Vec::new();
        let mut i: usize = 0;
        while i < films.len()
            invariant
                i <= films@.len(),
                repertoire_views(out@) == multikino_repertoire_spec(self.base_url@, date@, films@.subrange(0, i as int), *rules),
            decreases films.len() - i,
        {
            assert(films@.subrange(0, i + 1).drop_last() =~= films@.subrange(0, i as int));
            assert(films@.subrange(0, i + 1).last() == films@[i as int]);
            match self.parse_film_repertoire(date, &films[i], rules) {
                Some(m) => {
                    let ghost before = repertoire_views(out@);
                    out.push(m);
                    assert(repertoire_views(out@) =~= before.push(repertoire_view(m)));
                },
                None => {},
            }
            i = i + 1;
        }
        assert(films@.subrange(0, films@.len() as int) =~= films@);
        out
    }
}

/// The repertoire of `date`: each film's entry, in the API's order, skipping films without
/// one.
pub open spec fn multikino_repertoire_spec(base_url: Seq<char>, date: Seq<char>, films: Seq<MultikinoFilm>, rules: AttributeRules) -> Seq<RepertoireView>
    decreases films.len(),
{
    if films.len() == 0 {
        Seq::empty()
    } else {
        let pre = multikino_repertoire_spec(base_url, date, films.drop_last(), rules);
        match film_repertoire_spec(base_url, date, films.last(), rules) {
            Some(v) => pre.push(v),
            None => pre,
        }
    }
}

proof fn lemma_listed_ids_seen(cs: Seq<MultikinoCinema>)
    ensures
        forall|k: int| 0 <= k < listed_cinemas(cs).len() ==> cinema_seen_before(cs, cs.len() as int, #[trigger] listed_cinemas(cs)[k].0),
    decreases cs.len(),
{
    if cs.len() > 0 {
        let init = cs.drop_last();
        let n = cs.len() - 1;
        lemma_listed_ids_seen(init);
        let pre = listed_cinemas(init);
        assert forall|k: int| 0 <= k < listed_cinemas(cs).len() implies cinema_seen_before(cs, cs.len() as int, #[trigger] listed_cinemas(cs)[k].0) by {
            if k < pre.len() {
                assert(listed_cinemas(cs)[k] == pre[k]);
                assert(cinema_seen_before(init, n, pre[k].0));
                let j = choose|j: int| 0 <= j < n && #[trigger] cinema_key(init[j]) == Some(pre[k].0);
                assert(init[j] == cs[j]);
            } else {
                assert(cinema_key(cs[n]) == Some(listed_cinemas(cs)[k].0));
            }
        }
    }
}

/// No venue id occurs twice among the cinemas that the venue list gives (before sorting).
pub proof fn lemma_listed_ids_unique(cs: Seq<MultikinoCinema>)
    ensures
        forall|a: int, b: int| 0 <= a < b < listed_cinemas(cs).len() ==> listed_cinemas(cs)[a].0 != listed_cinemas(cs)[b].0,
    decreases cs.len(),
{
    if cs.len() > 0 {
        let init = cs.drop_last();
        let n = cs.len() - 1;
        lemma_listed_ids_unique(init);
        lemma_listed_ids_seen(init);
        let pre = listed_cinemas(init);
        let all = listed_cinemas(cs);
        assert forall|a: int, b: int| 0 <= a < b < all.len() implies all[a].0 != all[b].0 by {
            if b < pre.len() {
                assert(all[a] == pre[a] && all[b] == pre[b]);
            } else {
                assert(all[a] == pre[a]);
                assert(cinema_seen_before(init, n, pre[a].0));
                let j = choose|j: int| 0 <= j < n && #[trigger] cinema_key(init[j]) == Some(pre[a].0);
                assert(init[j] == cs[j]);
                if all[a].0 == all[b].0 {
                    assert(cinema_seen_before(cs, n, trim_seq(cs[n].cinema_id@)));
                }
            }
        }
    }
}

} // verus!
