//! The TMDB service as the library sees it: what its answers hold, how requests are made and
//! classified, and how the per-movie lookups are combined.
use crate::common::string_views;
use crate::domain::{TmdbLookupMovie, TmdbMovieDetails};
use crate::error::{AppError, AppResult};
use crate::retry::RetryDirective;
use crate::text::{
    chars_of, contains_seq, contains_str, decimal_seq, i64_to_decimal, push_all, push_str,
    signed_decimal_seq, string_of, u64_to_decimal,
};
use vstd::prelude::*;

verus! {

/// A movie of a TMDB search answer.
#[derive(Debug, Clone, PartialEq, Eq)]
pub struct TmdbSearchResult {
    pub id: u64,
    pub title: Option<String>,
    pub original_title: Option<String>,
    pub original_language: Option<String>,
    pub release_date: Option<String>,
    /// The vote average rounded to one decimal place, as it is printed.
    pub vote_average_label: Option<String>,
    pub vote_count: Option<u32>,
    pub overview: Option<String>,
}

/// A TMDB search answer.
#[derive(Debug, Clone, PartialEq, Eq)]
pub struct TmdbSearchResponse {
    pub results: Vec<TmdbSearchResult>,
}

#[derive(Debug, Clone, PartialEq, Eq)]
pub struct TmdbGenre {
    pub name: String,
}

#[derive(Debug, Clone, PartialEq, Eq)]
pub struct TmdbProductionCountry {
    pub iso_3166_1: Option<String>,
    pub name: Option<String>,
}

#[derive(Debug, Clone, PartialEq, Eq)]
pub struct TmdbCastMember {
    pub name: String,
}

#[derive(Debug, Clone, PartialEq, Eq)]
pub struct TmdbCrewMember {
    pub job: Option<String>,
    pub name: String,
}

#[derive(Debug, Clone, PartialEq, Eq)]
pub struct TmdbCredits {
    pub cast: Vec<TmdbCastMember>,
    pub crew: Vec<TmdbCrewMember>,
}

/// A TMDB movie details answer (with its credits).
#[derive(Debug, Clone, PartialEq, Eq)]
pub struct TmdbMovieDetailsResponse {
    pub title: Option<String>,
    pub original_title: Option<String>,
    pub original_language: Option<String>,
    pub release_date: Option<String>,
    pub runtime: Option<u16>,
    /// The vote average rounded to one decimal place, as it is printed.
    pub vote_average_label: Option<String>,
    pub vote_count: Option<u32>,
    pub overview: Option<String>,
    pub genres: Vec<TmdbGenre>,
    pub production_countries: Vec<TmdbProductionCountry>,
    pub credits: Option<TmdbCredits>,
}


/// How a request proves who sends it.
#[derive(Debug, Clone, Copy, PartialEq, Eq, Structural)]
pub enum TmdbAuthentication {
    /// The token goes in the `api_key` query parameter.
    ApiKey,
    /// The token goes in a `Bearer` authorization header.
    BearerToken,
}

pub open spec fn is_hex_digit(c: char) -> bool {
    ('0' <= c && c <= '9') || ('a' <= c && c <= 'f') || ('A' <= c && c <= 'F')
}

/// A legacy (v3) API key: 32 hexadecimal digits.
pub open spec fn v3_api_key_spec(token: Seq<char>) -> bool {
    token.len() == 32 && forall|i: int| 0 <= i < token.len() ==> is_hex_digit(#[trigger] token[i])
}

pub fn looks_like_tmdb_v3_api_key(access_token: &str) -> (r: bool)
    ensures
        r == v3_api_key_spec(access_token@),
{
    let t = chars_of(access_token);
    if t.len() != 32 {
        return false;
    }
    let mut i: usize = 0;
    while i < t.len()
        invariant
            i <= t@.len(),
            t@ == access_token@,
            forall|j: int| 0 <= j < i ==> is_hex_digit(#[trigger] t@[j]),
        decreases t.len() - i,
    {
        let c = t[i];
        if !(('0' <= c && c <= '9') || ('a' <= c && c <= 'f') || ('A' <= c && c <= 'F')) {
            return false;
        }
        i = i + 1;
    }
    true
}

/// A legacy API key goes in the query, any other token in a bearer header.
pub fn authentication_mode(access_token: &str) -> (r: TmdbAuthentication)
    ensures
        r == if v3_api_key_spec(access_token@) {
            TmdbAuthentication::ApiKey
        } else {
            TmdbAuthentication::BearerToken
        },
{
    if looks_like_tmdb_v3_api_key(access_token) {
        TmdbAuthentication::ApiKey
    } else {
        TmdbAuthentication::BearerToken
    }
}

/// The position of the last occurrence of `p` in `s`.
pub open spec fn last_occurrence(s: Seq<char>, p: Seq<char>) -> Option<int> {
    if exists|i: int| crate::text::occurs_at(s, p, i) {
        Some(choose|i: int| crate::text::occurs_at(s, p, i) && forall|j: int| crate::text::occurs_at(s, p, j) ==> j <= i)
    } else {
        None
    }
}

/// `s` without the slashes at its end.
pub open spec fn trim_end_slashes(s: Seq<char>) -> Seq<char>
    decreases s.len(),
{
    if s.len() > 0 && s.last() == '/' {
        trim_end_slashes(s.drop_last())
    } else {
        s
    }
}

/// The base URL of movie details next to a search URL: what precedes the last
/// `/search/movie`, followed by `/movie`; else the URL without trailing slashes followed by
/// `/movie`.
pub open spec fn movie_details_base_spec(search_url: Seq<char>) -> Seq<char> {
    match last_occurrence(search_url, "/search/movie"@) {
        Some(i) => search_url.subrange(0, i) + "/movie"@,
        None => trim_end_slashes(search_url) + "/movie"@,
    }
}

fn trim_end_slash_chars(s: &[char]) -> (r: Vec<char>)
    ensures
        r@ == trim_end_slashes(s@),
{
    let mut end: usize = s.len();
    assert(s@.subrange(0, s@.len() as int) =~= s@);
    while end > 0 && s[end - 1] == '/'
        invariant
            end <= s@.len(),
            trim_end_slashes(s@) == trim_end_slashes(s@.subrange(0, end as int)),
        decreases end,
    {
        assert(s@.subrange(0, end as int).drop_last() =~= s@.subrange(0, end - 1));
        end = end - 1;
    }
    crate::text::copy_range(s, 0, end)
}

pub fn derive_movie_details_base_url(search_url: &str) -> (r: String)
    ensures
        r@ == movie_details_base_spec(search_url@),
{
    let s = chars_of(search_url);
    let p = chars_of("/search/movie");
    let mut found: Option<usize> = None;
    let mut i: usize = 0;
    while i < s.len()
        invariant
            i <= s@.len(),
            s@ == search_url@,
            p@ == "/search/movie"@,
            match found {
                Some(f) => f < i && crate::text::occurs_at(s@, p@, f as int) && forall|j: int| 0 <= j < i && crate::text::occurs_at(s@, p@, j) ==> j <= f,
                None => forall|j: int| 0 <= j < i ==> !crate::text::occurs_at(s@, p@, j),
            },
        decreases s.len() - i,
    {
        if crate::text::occurs_at_exec(s.as_slice(), p.as_slice(), i) {
            found = Some(i);
        }
        i = i + 1;
    }
    proof {
        reveal_strlit("/search/movie");
        assert forall|j: int| crate::text::occurs_at(s@, p@, j) implies 0 <= j < s@.len() by {
            assert(p@.len() > 0);
        }
    }
    let mut out: Vec<char> = match found {
        Some(f) => crate::text::copy_range(s.as_slice(), 0, f),
        None => trim_end_slash_chars(s.as_slice()),
    };
    push_str(&mut out, "/movie");
    string_of(out.as_slice())
}

/// A search of TMDB: the query and, possibly, the year of release.
#[derive(Debug, Clone, PartialEq, Eq)]
pub struct TmdbSearchRequest {
    pub query: String,
    pub year: Option<i32>,
}

pub open spec fn param_views(v: Seq<(String, String)>) -> Seq<(Seq<char>, Seq<char>)> {
    v.map_values(|p: (String, String)| (p.0@, p.1@))
}

/// The query parameters of a search: the query, adult titles included, Polish language and
/// region, the first page, and the release year when one is given.
pub open spec fn search_params_spec(query: Seq<char>, year: Option<i32>) -> Seq<(Seq<char>, Seq<char>)> {
    let base = seq![
        ("query"@, query),
        ("include_adult"@, "true"@),
        ("language"@, "pl-PL"@),
        ("region"@, "PL"@),
        ("page"@, "1"@),
    ];
    match year {
        Some(y) => base.push(("primary_release_year"@, signed_decimal_seq(y as int))),
        None => base,
    }
}

fn owned(s: &str) -> (r: String)
    ensures
        r@ == s@,
{
    s.to_owned()
}

pub fn make_search_params(search_request: &TmdbSearchRequest) -> (r: Vec<(String, String)>)
    ensures
        param_views(r@) == search_params_spec(search_request.query@, search_request.year),
{
    let mut params: Vec<(String, String)> = Vec::new();
    params.push((owned("query"), search_request.query.clone()));
    params.push((owned("include_adult"), owned("true")));
    params.push((owned("language"), owned("pl-PL")));
    params.push((owned("region"), owned("PL")));
    params.push((owned("page"), owned("1")));
    match search_request.year {
        Some(y) => {
            let d = i64_to_decimal(y as i64);
            params.push((owned("primary_release_year"), string_of(d.as_slice())));
        },
        None => {},
    }
    assert(param_views(params@) =~= search_params_spec(search_request.query@, search_request.year));
    params
}

/// The query parameters of a movie details request: Polish language, with the credits.
pub fn movie_details_params() -> (r: Vec<(String, String)>)
    ensures
        param_views(r@) == seq![("language"@, "pl-PL"@), ("append_to_response"@, "credits"@)],
{
    let mut params: Vec<(String, String)> = Vec::new();
    params.push((owned("language"), owned("pl-PL")));
    params.push((owned("append_to_response"), owned("credits")));
    assert(param_views(params@) =~= seq![("language"@, "pl-PL"@), ("append_to_response"@, "credits"@)]);
    params
}

/// The URL of a movie's details.
pub fn movie_details_url(base_url: &str, movie_id: u64) -> (r: String)
    ensures
        r@ == trim_end_slashes(base_url@) + "/"@ + decimal_seq(movie_id as nat),
{
    let mut out = trim_end_slash_chars(chars_of(base_url).as_slice());
    push_str(&mut out, "/");
    let d = u64_to_decimal(movie_id);
    push_all(&mut out, d.as_slice());
    string_of(out.as_slice())
}

/// Statuses worth another try: request timeout, too many requests, and server errors.
pub open spec fn retryable_status(status: u16) -> bool {
    status == 408 || status == 429 || (500 <= status && status <= 599)
}

pub fn is_retryable_tmdb_status(status: u16) -> (r: bool)
    ensures
        r == retryable_status(status),
{
    status == 408 || status == 429 || (500 <= status && status <= 599)
}

/// How `http` prints a status code: the number, a space, and its reason phrase, or
/// `<unknown status code>` for a code that has none.
pub uninterp spec fn http_status_text(status: u16) -> Seq<char>;

/// `reqwest::StatusCode::from_u16(status)` printed with `Display`. It fails only outside
/// 100 to 999, which `requires` leaves out; the contract names the result.
#[verifier::external_body]
pub(crate) fn status_text(status: u16) -> (r: String)
    requires
        100 <= status <= 999,
    ensures
        r@ == http_status_text(status),
{
    reqwest::StatusCode::from_u16(status).unwrap().to_string()
}

pub open spec fn status_error_message(status: u16) -> Seq<char> {
    "TMDB request failed with status "@ + http_status_text(status) + "."@
}

/// The error for a TMDB answer with a failing status.
pub fn tmdb_status_error(status: u16) -> (r: AppError)
    requires
        100 <= status <= 999,
    ensures
        r matches AppError::Http(m) && m@ == status_error_message(status),
{
    let mut v = chars_of("TMDB request failed with status ");
    let t = status_text(status);
    push_str(&mut v, t.as_str());
    push_str(&mut v, ".");
    AppError::Http(string_of(v.as_slice()))
}

/// What a failed request reports about itself (`reqwest::Error`'s text and kind).
#[derive(Debug, Clone, PartialEq, Eq)]
pub struct TransportFailure {
    pub message: String,
    pub is_timeout: bool,
    pub is_connect: bool,
    pub is_request: bool,
    pub is_body: bool,
}

/// A request that could not be sent or answered: retried when it timed out, could not
/// connect, failed while sending, or failed in its body.
pub fn classify_tmdb_transport_error(failure: TransportFailure) -> (r: RetryDirective<AppError>)
    ensures
        (failure.is_timeout || failure.is_connect || failure.is_request || failure.is_body) ==> r == RetryDirective::Retry(AppError::Http(failure.message)),
        !(failure.is_timeout || failure.is_connect || failure.is_request || failure.is_body) ==> r == RetryDirective::Fail(AppError::Http(failure.message)),
{
    let retryable = failure.is_timeout || failure.is_connect || failure.is_request || failure.is_body;
    let error = AppError::Http(failure.message);
    if retryable {
        RetryDirective::retry(error)
    } else {
        RetryDirective::fail(error)
    }
}

/// An answer whose body could not be read: retried when it timed out or failed in its body.
pub fn classify_tmdb_response_read_error(failure: TransportFailure) -> (r: RetryDirective<AppError>)
    ensures
        (failure.is_timeout || failure.is_body) ==> r == RetryDirective::Retry(AppError::Http(failure.message)),
        !(failure.is_timeout || failure.is_body) ==> r == RetryDirective::Fail(AppError::Http(failure.message)),
{
    let retryable = failure.is_timeout || failure.is_body;
    let error = AppError::Http(failure.message);
    if retryable {
        RetryDirective::retry(error)
    } else {
        RetryDirective::fail(error)
    }
}

/// The error text of a movie page that could not be requested.
pub open spec fn movie_page_send_message(url: Seq<char>, message: Seq<char>) -> Seq<char> {
    "Nie udało się pobrać strony filmu `"@ + url + "`: "@ + message
}

/// The error text of a movie page whose body could not be read.
pub open spec fn movie_page_read_message(url: Seq<char>, message: Seq<char>) -> Seq<char> {
    "Nie udało się odczytać strony filmu `"@ + url + "`: "@ + message
}

fn quoted_url_message(prefix: &str, url: &str, message: &str) -> (r: String)
    ensures
        r@ == prefix@ + url@ + "`: "@ + message@,
{
    let mut v = chars_of(prefix);
    push_str(&mut v, url);
    push_str(&mut v, "`: ");
    push_str(&mut v, message);
    string_of(v.as_slice())
}

/// A chain's movie page that could not be requested: retried when the request timed out,
/// could not connect or failed while sending.
pub fn classify_movie_page_send_error(url: &str, failure: TransportFailure) -> (r: RetryDirective<AppError>)
    ensures
        (failure.is_timeout || failure.is_connect || failure.is_request) ==> (r matches RetryDirective::Retry(AppError::Http(m))
            && m@ == movie_page_send_message(url@, failure.message@)),
        !(failure.is_timeout || failure.is_connect || failure.is_request) ==> (r matches RetryDirective::Fail(AppError::Http(m))
            && m@ == movie_page_send_message(url@, failure.message@)),
{
    let error = AppError::Http(quoted_url_message("Nie udało się pobrać strony filmu `", url, failure.message.as_str()));
    if failure.is_timeout || failure.is_connect || failure.is_request {
        RetryDirective::retry(error)
    } else {
        RetryDirective::fail(error)
    }
}

/// A chain's movie page whose body could not be read: retried when the read timed out or
/// failed in the body.
pub fn classify_movie_page_read_error(url: &str, failure: TransportFailure) -> (r: RetryDirective<AppError>)
    ensures
        (failure.is_timeout || failure.is_body) ==> (r matches RetryDirective::Retry(AppError::Http(m))
            && m@ == movie_page_read_message(url@, failure.message@)),
        !(failure.is_timeout || failure.is_body) ==> (r matches RetryDirective::Fail(AppError::Http(m))
            && m@ == movie_page_read_message(url@, failure.message@)),
{
    let error = AppError::Http(quoted_url_message("Nie udało się odczytać strony filmu `", url, failure.message.as_str()));
    if failure.is_timeout || failure.is_body {
        RetryDirective::retry(error)
    } else {
        RetryDirective::fail(error)
    }
}

/// A movie page answered with a client or server error status fails without retrying; any
/// other status lets the body be read.
pub fn movie_page_status_error(status: u16) -> (r: Option<RetryDirective<AppError>>)
    requires
        100 <= status <= 999,
    ensures
        (400 <= status <= 599) ==> (r matches Some(RetryDirective::Fail(AppError::Http(m)))
            && m@ == "Żądanie strony filmu zakończyło się błędem: status "@ + http_status_text(status) + "."@),
        !(400 <= status <= 599) ==> r is None,
{
    if 400 <= status && status <= 599 {
        let mut v = chars_of("Żądanie strony filmu zakończyło się błędem: status ");
        let t = status_text(status);
        push_str(&mut v, t.as_str());
        push_str(&mut v, ".");
        Some(RetryDirective::fail(AppError::Http(string_of(v.as_slice()))))
    } else {
        None
    }
}

/// The error for a movie page whose `filmDetails` object is not the JSON expected.
pub fn invalid_film_details_error(detail: &str) -> (r: AppError)
    ensures
        r matches AppError::BrowserUnavailable(m)
            && m@ == "Nie udało się odczytać szczegółów filmu z aktualnego formatu strony: "@ + detail@,
{
    let mut v = chars_of("Nie udało się odczytać szczegółów filmu z aktualnego formatu strony: ");
    push_str(&mut v, detail);
    AppError::BrowserUnavailable(string_of(v.as_slice()))
}

/// What a search or details request does with the status of its answer: `Ok` to read the
/// body; unauthorized and forbidden fail, retryable statuses are retried, other client and
/// server errors fail.
pub fn classify_data_status(status: u16, retry_after_nanos: Option<u128>) -> (r: Result<(), RetryDirective<AppError>>)
    requires
        100 <= status <= 999,
    ensures
        (status == 401 || status == 403) ==> (r matches Err(RetryDirective::Fail(AppError::Http(m))) && m@ == status_error_message(status)),
        !(status == 401 || status == 403) && retryable_status(status) ==> match retry_after_nanos {
            Some(d) => (r matches Err(RetryDirective::RetryAfter { error: AppError::Http(m), delay_nanos }) && m@ == status_error_message(status) && delay_nanos == d),
            None => (r matches Err(RetryDirective::Retry(AppError::Http(m))) && m@ == status_error_message(status)),
        },
        !(status == 401 || status == 403) && !retryable_status(status) && 400 <= status <= 599 ==> (r matches Err(RetryDirective::Fail(AppError::Http(m))) && m@ == status_error_message(status)),
        !(400 <= status <= 599) ==> r is Ok,
{
    if status == 401 || status == 403 {
        return Err(RetryDirective::fail(tmdb_status_error(status)));
    }
    if is_retryable_tmdb_status(status) {
        let error = tmdb_status_error(status);
        return Err(match retry_after_nanos {
            Some(delay) => RetryDirective::retry_after(error, delay),
            None => RetryDirective::retry(error),
        });
    }
    if 400 <= status && status <= 599 {
        return Err(RetryDirective::fail(tmdb_status_error(status)));
    }
    Ok(())
}

/// What the credentials check makes of a status: success for 200, rejection for
/// unauthorized, forbidden and any other non-retryable status, a retry for retryable ones.
pub fn classify_authentication_status(status: u16, retry_after_nanos: Option<u128>) -> (r: Result<bool, RetryDirective<AppError>>)
    requires
        100 <= status <= 999,
    ensures
        status == 200 ==> r == Ok::<bool, RetryDirective<AppError>>(true),
        (status == 401 || status == 403) ==> r == Ok::<bool, RetryDirective<AppError>>(false),
        status != 200 && status != 401 && status != 403 && retryable_status(status) ==> match retry_after_nanos {
            Some(d) => (r matches Err(RetryDirective::RetryAfter { error: AppError::Http(m), delay_nanos }) && m@ == status_error_message(status) && delay_nanos == d),
            None => (r matches Err(RetryDirective::Retry(AppError::Http(m))) && m@ == status_error_message(status)),
        },
        status != 200 && status != 401 && status != 403 && !retryable_status(status) ==> r == Ok::<bool, RetryDirective<AppError>>(false),
{
    if status == 200 {
        return Ok(true);
    }
    if status == 401 || status == 403 {
        return Ok(false);
    }
    if is_retryable_tmdb_status(status) {
        let error = tmdb_status_error(status);
        return Err(match retry_after_nanos {
            Some(delay) => RetryDirective::retry_after(error, delay),
            None => RetryDirective::retry(error),
        });
    }
    Ok(false)
}

/// The error for a search answer that is not valid JSON.
pub fn invalid_search_json_error(query: &str, detail: &str) -> (r: AppError)
    ensures
        r matches AppError::Http(m) && m@ == "TMDB returned invalid JSON for search `"@ + query@ + "`: "@ + detail@,
{
    let mut v = chars_of("TMDB returned invalid JSON for search `");
    push_str(&mut v, query);
    push_str(&mut v, "`: ");
    push_str(&mut v, detail);
    AppError::Http(string_of(v.as_slice()))
}

/// The error for a movie details answer that is not valid JSON.
pub fn invalid_details_json_error(movie_id: u64, detail: &str) -> (r: AppError)
    ensures
        r matches AppError::Http(m) && m@ == "TMDB returned invalid JSON for movie id `"@ + decimal_seq(movie_id as nat) + "`: "@ + detail@,
{
    let mut v = chars_of("TMDB returned invalid JSON for movie id `");
    let d = u64_to_decimal(movie_id);
    push_all(&mut v, d.as_slice());
    push_str(&mut v, "`: ");
    push_str(&mut v, detail);
    AppError::Http(string_of(v.as_slice()))
}

/// The positions of the movies to look up: the first movie of each lookup key, in order.
pub open spec fn first_of_each_key(keys: Seq<Seq<char>>) -> Seq<int>
    decreases keys.len(),
{
    if keys.len() == 0 {
        Seq::empty()
    } else {
        let pre = first_of_each_key(keys.drop_last());
        if keys.drop_last().contains(keys.last()) {
            pre
        } else {
            pre.push(keys.len() - 1)
        }
    }
}

proof fn lemma_first_positions_increasing(keys: Seq<Seq<char>>)
    ensures
        forall|j: int| 0 <= j < first_of_each_key(keys).len() ==> 0 <= #[trigger] first_of_each_key(keys)[j] < keys.len(),
        forall|a: int, b: int| 0 <= a < b < first_of_each_key(keys).len() ==> #[trigger] first_of_each_key(keys)[a]
            < #[trigger] first_of_each_key(keys)[b],
    decreases keys.len(),
{
    if keys.len() > 0 {
        let p = keys.drop_last();
        let rp = first_of_each_key(p);
        let r = first_of_each_key(keys);
        lemma_first_positions_increasing(p);
        if !p.contains(keys.last()) {
            assert(r == rp.push(keys.len() - 1));
            assert forall|j: int| 0 <= j < r.len() implies 0 <= #[trigger] r[j] < keys.len() by {
                if j < rp.len() {
                    assert(r[j] == rp[j]);
                }
            }
            assert forall|a: int, b: int| 0 <= a < b < r.len() implies #[trigger] r[a] < #[trigger] r[b] by {
                assert(r[a] == rp[a]);
                if b < rp.len() {
                    assert(r[b] == rp[b]);
                }
            }
        }
    }
}

proof fn lemma_first_positions_are_first(keys: Seq<Seq<char>>)
    ensures
        forall|j: int, m: int| 0 <= j < first_of_each_key(keys).len() && 0 <= m < first_of_each_key(keys)[j]
            ==> #[trigger] keys[m] != keys[#[trigger] first_of_each_key(keys)[j]],
    decreases keys.len(),
{
    if keys.len() > 0 {
        let p = keys.drop_last();
        let rp = first_of_each_key(p);
        let r = first_of_each_key(keys);
        lemma_first_positions_are_first(p);
        lemma_first_positions_increasing(p);
        assert forall|j: int, m: int| 0 <= j < r.len() && 0 <= m < r[j] implies #[trigger] keys[m] != keys[#[trigger] r[j]] by {
            assert(keys[m] == p[m]);
            if j < rp.len() {
                assert(r[j] == rp[j]);
                assert(keys[r[j]] == p[rp[j]]);
            } else if keys[m] == keys.last() {
                assert(p.contains(keys.last()));
            }
        }
    }
}

proof fn lemma_first_positions_cover(keys: Seq<Seq<char>>)
    ensures
        forall|i: int| #![trigger keys[i]] 0 <= i < keys.len() ==> exists|j: int| #![trigger first_of_each_key(keys)[j]]
            0 <= j < first_of_each_key(keys).len() && keys[first_of_each_key(keys)[j]] == keys[i],
    decreases keys.len(),
{
    if keys.len() > 0 {
        let p = keys.drop_last();
        let rp = first_of_each_key(p);
        let r = first_of_each_key(keys);
        let n = keys.len() - 1;
        lemma_first_positions_cover(p);
        lemma_first_positions_increasing(p);
        assert forall|i: int| #![trigger keys[i]] 0 <= i < keys.len() implies exists|j: int| #![trigger r[j]]
            0 <= j < r.len() && keys[r[j]] == keys[i] by {
            lemma_first_position_of(keys, i);
        }
    }
}

proof fn lemma_first_position_of(keys: Seq<Seq<char>>, i: int)
    requires
        0 <= i < keys.len(),
        forall|k: int| #![trigger keys.drop_last()[k]] 0 <= k < keys.drop_last().len() ==> exists|j: int|
            #![trigger first_of_each_key(keys.drop_last())[j]] 0 <= j < first_of_each_key(keys.drop_last()).len()
            && keys.drop_last()[first_of_each_key(keys.drop_last())[j]] == keys.drop_last()[k],
        forall|j: int| 0 <= j < first_of_each_key(keys.drop_last()).len() ==> 0 <= #[trigger] first_of_each_key(keys.drop_last())[j]
            < keys.drop_last().len(),
    ensures
        exists|j: int| #![trigger first_of_each_key(keys)[j]] 0 <= j < first_of_each_key(keys).len() && keys[first_of_each_key(keys)[j]] == keys[i],
{
    let p = keys.drop_last();
    let rp = first_of_each_key(p);
    let r = first_of_each_key(keys);
    let n = keys.len() - 1;
    if i < n || p.contains(keys.last()) {
        let k = if i < n {
            i
        } else {
            choose|m: int| 0 <= m < p.len() && p[m] == keys.last()
        };
        assert(p[k] == keys[i]);
        let j = choose|j: int| #![trigger rp[j]] 0 <= j < rp.len() && p[rp[j]] == p[k];
        assert(r.len() >= rp.len() && r[j] == rp[j]);
        assert(keys[r[j]] == p[rp[j]]);
    } else {
        assert(r == rp.push(n));
        assert(r[rp.len() as int] == n);
    }
}

/// Every lookup key is looked up exactly once, at its first movie: the positions chosen are
/// increasing, each is the first position that holds its key, and every key has one.
pub proof fn lemma_each_key_looked_up_once(keys: Seq<Seq<char>>) -> (r: Seq<int>)
    ensures
        r == first_of_each_key(keys),
        forall|j: int| 0 <= j < r.len() ==> 0 <= #[trigger] r[j] < keys.len(),
        forall|j: int, m: int| 0 <= j < r.len() && 0 <= m < r[j] ==> #[trigger] keys[m] != keys[#[trigger] r[j]],
        forall|a: int, b: int| 0 <= a < b < r.len() ==> #[trigger] r[a] < #[trigger] r[b],
        forall|i: int| #![trigger keys[i]] 0 <= i < keys.len() ==> exists|j: int| #![trigger r[j]] 0 <= j < r.len() && keys[r[j]] == keys[i],
{
    lemma_first_positions_increasing(keys);
    lemma_first_positions_are_first(keys);
    lemma_first_positions_cover(keys);
    first_of_each_key(keys)
}

pub open spec fn lookup_keys(movies: Seq<TmdbLookupMovie>) -> Seq<Seq<char>> {
    movies.map_values(|m: TmdbLookupMovie| m.lookup_key@)
}

pub fn unique_lookup_indices(movies: &Vec<TmdbLookupMovie>) -> (r: Vec<usize>)
    ensures
        r@.map_values(|i: usize| i as int) == first_of_each_key(lookup_keys(movies@)),
{
    let ghost keys = lookup_keys(movies@);
    let mut out: Vec<usize> = Vec::new();
    let mut i: usize = 0;
    while i < movies.len()
        invariant
            i <= movies@.len(),
            keys == lookup_keys(movies@),
            out@.map_values(|k: usize| k as int) == first_of_each_key(keys.subrange(0, i as int)),
        decreases movies.len() - i,
    {
        let ghost pre = keys.subrange(0, i as int);
        assert(keys.subrange(0, i + 1).drop_last() =~= pre);
        assert(keys.subrange(0, i + 1).last() == movies@[i as int].lookup_key@);
        let mut seen = false;
        let mut j: usize = 0;
        while j < i
            invariant
                j <= i,
                i < movies@.len(),
                keys == lookup_keys(movies@),
                pre == keys.subrange(0, i as int),
                seen == (exists|m: int| 0 <= m < j && pre[m] == movies@[i as int].lookup_key@),
            decreases i - j,
        {
            if movies[j].lookup_key == movies[i].lookup_key {
                assert(pre[j as int] == movies@[j as int].lookup_key@);
                seen = true;
            }
            proof {
                assert(pre[j as int] == movies@[j as int].lookup_key@);
            }
            j = j + 1;
        }
        proof {
            if seen {
                let m = choose|m: int| 0 <= m < i && pre[m] == movies@[i as int].lookup_key@;
                assert(pre.contains(movies@[i as int].lookup_key@));
            } else {
                assert(!pre.contains(movies@[i as int].lookup_key@));
            }
        }
        if !seen {
            let ghost before = out@;
            out.push(i);
            assert(out@.map_values(|k: usize| k as int) =~= before.map_values(|k: usize| k as int).push(i as int));
        }
        i = i + 1;
    }
    assert(keys.subrange(0, movies@.len() as int) =~= keys);
    out
}

/// The outcome of one movie's lookup: its key and what the lookup gave.
pub struct LookupOutcome {
    pub lookup_key: String,
    pub result: AppResult<Option<TmdbMovieDetails>>,
}

/// An HTTP error that reports an unauthorized or forbidden answer.
pub open spec fn is_authorization_failure(r: AppResult<Option<TmdbMovieDetails>>) -> bool {
    r matches Err(AppError::Http(m)) && (contains_seq(m@, http_status_text(401)) || contains_seq(m@, http_status_text(403)))
}

/// The rating and summary shown for a lookup: those found, or blanks.
pub open spec fn shown_details(r: AppResult<Option<TmdbMovieDetails>>) -> (Seq<char>, Seq<char>) {
    match r {
        Ok(Some(d)) => (d.rating@, d.summary@),
        _ => (Seq::empty(), Seq::empty()),
    }
}

/// The entries of the lookups that did not fail for lack of authorization.
pub open spec fn shown_entries(outcomes: Seq<LookupOutcome>) -> Seq<(Seq<char>, (Seq<char>, Seq<char>))>
    decreases outcomes.len(),
{
    if outcomes.len() == 0 {
        Seq::empty()
    } else {
        let pre = shown_entries(outcomes.drop_last());
        let o = outcomes.last();
        if is_authorization_failure(o.result) {
            pre
        } else {
            pre.push((o.lookup_key@, shown_details(o.result)))
        }
    }
}

/// The number of lookups that answered, with or without a match.
pub open spec fn answered_count(outcomes: Seq<LookupOutcome>) -> nat
    decreases outcomes.len(),
{
    if outcomes.len() == 0 {
        0
    } else {
        answered_count(outcomes.drop_last()) + if outcomes.last().result is Ok {
            1nat
        } else {
            0nat
        }
    }
}

/// The first authorization failure among the lookups.
pub open spec fn first_authorization_error(outcomes: Seq<LookupOutcome>) -> Option<AppError>
    decreases outcomes.len(),
{
    if outcomes.len() == 0 {
        None
    } else {
        match first_authorization_error(outcomes.drop_last()) {
            Some(e) => Some(e),
            None => if is_authorization_failure(outcomes.last().result) {
                match outcomes.last().result {
                    Err(e) => Some(e),
                    Ok(_) => None,
                }
            } else {
                None
            },
        }
    }
}

/// The last failure of another kind.
pub open spec fn last_other_error(outcomes: Seq<LookupOutcome>) -> Option<AppError>
    decreases outcomes.len(),
{
    if outcomes.len() == 0 {
        None
    } else {
        let o = outcomes.last();
        match o.result {
            Err(e) => if is_authorization_failure(o.result) {
                last_other_error(outcomes.drop_last())
            } else {
                Some(e)
            },
            Ok(_) => last_other_error(outcomes.drop_last()),
        }
    }
}

pub open spec fn entry_views(v: Seq<(String, TmdbMovieDetails)>) -> Seq<(Seq<char>, (Seq<char>, Seq<char>))> {
    v.map_values(|e: (String, TmdbMovieDetails)| (e.0@, (e.1.rating@, e.1.summary@)))
}

fn text_contains(m: &String, t: &String) -> (r: bool)
    ensures
        r == contains_seq(m@, t@),
{
    crate::text::contains(chars_of(m.as_str()).as_slice(), chars_of(t.as_str()).as_slice())
}

/// The ratings of a batch of lookups, in the order of their outcomes: an authorization
/// failure fails the batch with the first such error; otherwise every movie gets its
/// details, blank when its lookup found nothing or failed; when no lookup answered at all,
/// the batch fails with the last error.
pub fn combine_lookup_outcomes(outcomes: Vec<LookupOutcome>) -> (r: AppResult<Vec<(String, TmdbMovieDetails)>>)
    ensures
        match first_authorization_error(outcomes@) {
            Some(e) => r == Err::<Vec<(String, TmdbMovieDetails)>, AppError>(e),
            None => if answered_count(outcomes@) == 0 {
                match last_other_error(outcomes@) {
                    Some(e) => r == Err::<Vec<(String, TmdbMovieDetails)>, AppError>(e),
                    None => r matches Err(AppError::Http(m)) && m@ == "All TMDB requests failed."@,
                }
            } else {
                r matches Ok(v) && entry_views(v@) == shown_entries(outcomes@)
            },
        },
{
    let unauthorized = status_text(401);
    let forbidden = status_text(403);
    let ghost all = outcomes@;
    let mut rest = outcomes;
    let mut output: Vec<(String, TmdbMovieDetails)> = Vec::new();
    let mut last_non_auth_error: Option<AppError> = None;
    let mut authorization_error: Option<AppError> = None;
    let mut successful_lookups: usize = 0;
    let mut consumed: usize = 0;
    let total = rest.len();
    assert(all.subrange(0, 0) =~= Seq::<LookupOutcome>::empty());
    while rest.len() > 0
        invariant
            consumed <= all.len(),
            all.len() == total,
            rest@ == all.subrange(consumed as int, all.len() as int),
            unauthorized@ == http_status_text(401),
            forbidden@ == http_status_text(403),
            entry_views(output@) == shown_entries(all.subrange(0, consumed as int)),
            successful_lookups == answered_count(all.subrange(0, consumed as int)),
            successful_lookups <= consumed,
            authorization_error == first_authorization_error(all.subrange(0, consumed as int)),
            last_non_auth_error == last_other_error(all.subrange(0, consumed as int)),
        decreases rest.len(),
    {
        let outcome = rest.remove(0);
        let ghost prefix = all.subrange(0, consumed + 1);
        assert(prefix.drop_last() =~= all.subrange(0, consumed as int));
        assert(prefix.last() == outcome);
        let is_auth = match &outcome.result {
            Err(AppError::Http(message)) => text_contains(message, &unauthorized) || text_contains(message, &forbidden),
            _ => false,
        };
        assert(is_auth == is_authorization_failure(outcome.result));
        let LookupOutcome { lookup_key, result } = outcome;
        match result {
            Ok(Some(details)) => {
                successful_lookups = successful_lookups + 1;
                let ghost before = output@;
                output.push((lookup_key, details));
                assert(entry_views(output@) =~= entry_views(before).push(entry_views(output@).last()));
            },
            Ok(None) => {
                successful_lookups = successful_lookups + 1;
                let ghost before = output@;
                output.push((lookup_key, TmdbMovieDetails { rating: String::new(), summary: String::new() }));
                assert(entry_views(output@) =~= entry_views(before).push(entry_views(output@).last()));
            },
            Err(error) => {
                if is_auth {
                    if authorization_error.is_none() {
                        authorization_error = Some(error);
                    }
                } else {
                    last_non_auth_error = Some(error);
                    let ghost before = output@;
                    output.push((lookup_key, TmdbMovieDetails { rating: String::new(), summary: String::new() }));
                    assert(entry_views(output@) =~= entry_views(before).push(entry_views(output@).last()));
                }
            },
        }
        consumed = consumed + 1;
        assert(rest@ =~= all.subrange(consumed as int, all.len() as int));
    }
    assert(all.subrange(0, all.len() as int) =~= all);
    match authorization_error {
        Some(error) => {
            return Err(error);
        },
        None => {},
    }
    if successful_lookups == 0 {
        return match last_non_auth_error {
            Some(error) => Err(error),
            None => Err(AppError::Http(owned("All TMDB requests failed."))),
        };
    }
    Ok(output)
}
} // verus!
