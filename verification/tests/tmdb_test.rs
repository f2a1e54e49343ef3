use quick_repertoire::matching::render_rating;
use quick_repertoire::tmdb::{
    authentication_mode, derive_movie_details_base_url, is_retryable_tmdb_status, looks_like_tmdb_v3_api_key,
    movie_details_url, tmdb_status_error, TmdbAuthentication,
};
use quick_repertoire::tmdb::{
    classify_movie_page_read_error, classify_movie_page_send_error, invalid_film_details_error, movie_page_status_error,
    TransportFailure,
};
use quick_repertoire::retry::{RetryDirective, RetryPolicy, RetryStep};
use quick_repertoire::tmdb::classify_authentication_status;
use quick_repertoire::error::AppError;

#[test]
fn render_rating_rounds_to_one_decimal_place() {
    let vote_average: f64 = 6.717;
    assert_eq!(render_rating(&Some(format!("{vote_average:.1}")), Some(184)), "6.7/10\n(głosy: 184)");
}

#[test]
fn v3_api_keys_are_recognised() {
    assert!(looks_like_tmdb_v3_api_key("0123456789abcdef0123456789abcdef"));
    assert!(!looks_like_tmdb_v3_api_key("eyJhbGciOiJIUzI1NiJ9.token"));
    assert!(matches!(authentication_mode("0123456789abcdef0123456789abcdef"), TmdbAuthentication::ApiKey));
}

#[test]
fn details_urls_follow_the_search_url() {
    assert_eq!(derive_movie_details_base_url("https://api.themoviedb.org/3/search/movie"), "https://api.themoviedb.org/3/movie");
    assert_eq!(movie_details_url("https://api.themoviedb.org/3/movie", 42), "https://api.themoviedb.org/3/movie/42");
}

#[test]
fn tmdb_statuses_are_classified() {
    assert!(is_retryable_tmdb_status(429));
    assert!(is_retryable_tmdb_status(503));
    assert!(!is_retryable_tmdb_status(404));
    assert_eq!(
        tmdb_status_error(401),
        AppError::Http("TMDB request failed with status 401 Unauthorized.".to_string())
    );
}

fn failure(message: &str, is_timeout: bool, is_connect: bool, is_request: bool, is_body: bool) -> TransportFailure {
    TransportFailure { message: message.to_string(), is_timeout, is_connect, is_request, is_body }
}

#[test]
fn movie_page_send_errors_retry_only_transient_failures() {
    let url = "https://www.cinema-city.pl/filmy/x";
    assert_eq!(
        classify_movie_page_send_error(url, failure("timed out", true, false, false, false)),
        RetryDirective::Retry(AppError::Http(
            "Nie udało się pobrać strony filmu `https://www.cinema-city.pl/filmy/x`: timed out".to_string()
        ))
    );
    assert_eq!(
        classify_movie_page_send_error(url, failure("bad body", false, false, false, true)),
        RetryDirective::Fail(AppError::Http(
            "Nie udało się pobrać strony filmu `https://www.cinema-city.pl/filmy/x`: bad body".to_string()
        ))
    );
}

#[test]
fn movie_page_read_errors_retry_timeouts_and_body_failures() {
    let url = "https://www.cinema-city.pl/filmy/x";
    assert_eq!(
        classify_movie_page_read_error(url, failure("cut", false, false, false, true)),
        RetryDirective::Retry(AppError::Http(
            "Nie udało się odczytać strony filmu `https://www.cinema-city.pl/filmy/x`: cut".to_string()
        ))
    );
    assert_eq!(
        classify_movie_page_read_error(url, failure("decode", false, true, false, false)),
        RetryDirective::Fail(AppError::Http(
            "Nie udało się odczytać strony filmu `https://www.cinema-city.pl/filmy/x`: decode".to_string()
        ))
    );
}

#[test]
fn movie_page_statuses_fail_on_client_and_server_errors() {
    assert_eq!(movie_page_status_error(200), None);
    assert_eq!(movie_page_status_error(302), None);
    assert_eq!(
        movie_page_status_error(404),
        Some(RetryDirective::Fail(AppError::Http(
            "Żądanie strony filmu zakończyło się błędem: status 404 Not Found.".to_string()
        )))
    );
}

#[test]
fn invalid_film_details_are_reported_as_page_format_errors() {
    assert_eq!(
        invalid_film_details_error("expected value"),
        AppError::BrowserUnavailable(
            "Nie udało się odczytać szczegółów filmu z aktualnego formatu strony: expected value".to_string()
        )
    );
}

#[test]
fn verify_api_key_retries_retryable_tmdb_responses() {
    let statuses = [500u16, 200u16];
    let policy = RetryPolicy::new(2, 0, 0);
    let mut requests = 0;
    let accepted = loop {
        let status = statuses[requests];
        requests += 1;
        match classify_authentication_status(status, None) {
            Ok(accepted) => break accepted,
            Err(directive) => match policy.after_failure(requests, directive) {
                RetryStep::Stop(_) => break false,
                RetryStep::WaitThenRetry(_) => {}
            },
        }
    };
    assert!(accepted);
    assert_eq!(requests, 2);
    assert_eq!(classify_authentication_status(401, None), Ok(false));
}
