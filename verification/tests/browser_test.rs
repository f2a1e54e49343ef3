use quick_repertoire::browser::{
    build_wait_timeout_error, classify_render_error, is_transient_browser_error, SelectorWait, WaitStep,
};
use quick_repertoire::error::AppError;
use quick_repertoire::retry::RetryDirective;

#[test]
fn wait_for_selector_in_rendered_html_retries_transient_missing_node_errors() {
    let mut wait = SelectorWait::new("https://example.test".to_string(), "body".to_string());
    assert_eq!(wait.before_poll(false), None);
    let step = wait.after_poll(Err(AppError::BrowserUnavailable("Could not find node with given id".to_string())), false);
    assert_eq!(step, WaitStep::KeepPolling);
    assert_eq!(wait.before_poll(false), None);
    let step = wait.after_poll(Ok("<html><body><p>ready</p></body></html>".to_string()), false);
    assert_eq!(step, WaitStep::Found("<html><body><p>ready</p></body></html>".to_string()));
}

#[test]
fn wait_for_selector_in_rendered_html_times_out_when_selector_never_appears() {
    let mut wait = SelectorWait::new("https://example.test".to_string(), "h2.mr-sm".to_string());
    let step = wait.after_poll(Err(AppError::BrowserUnavailable("Execution context was destroyed".to_string())), false);
    assert_eq!(step, WaitStep::KeepPolling);
    let step = wait.after_poll(Ok("<div></div>".to_string()), true);
    assert_eq!(
        step,
        WaitStep::Failed(AppError::BrowserUnavailable(
            "Przekroczono limit czasu podczas oczekiwania na element `h2.mr-sm` na stronie https://example.test. Ostatni błąd przeglądarki: Execution context was destroyed".to_string()
        ))
    );
}

#[test]
fn other_browser_failures_end_the_wait() {
    let mut wait = SelectorWait::new("u".to_string(), "body".to_string());
    let step = wait.after_poll(Err(AppError::Http("boom".to_string())), false);
    assert_eq!(step, WaitStep::Failed(AppError::Http("boom".to_string())));
}

#[test]
fn render_failures_are_retried_only_for_the_browser() {
    assert!(matches!(classify_render_error(AppError::BrowserUnavailable("x".to_string())), RetryDirective::Retry(_)));
    assert!(matches!(classify_render_error(AppError::Http("x".to_string())), RetryDirective::Fail(_)));
    assert!(!is_transient_browser_error(&AppError::BrowserUnavailable("timeout".to_string())));
    assert_eq!(
        build_wait_timeout_error("u", "body", None),
        AppError::BrowserUnavailable("Przekroczono limit czasu podczas oczekiwania na element `body` na stronie u.".to_string())
    );
}

/// Runs a wait over the given page reads; the deadline passes once `reads_before_deadline`
/// reads have been made.
fn wait_over(responses: Vec<Result<String, AppError>>, reads_before_deadline: usize) -> Result<String, AppError> {
    let mut wait = SelectorWait::new("https://example.test/repertoire".to_string(), "div.row.qb-movie".to_string());
    let mut reads = 0;
    let mut responses = responses.into_iter();
    loop {
        if let Some(error) = wait.before_poll(reads >= reads_before_deadline) {
            return Err(error);
        }
        let content = responses.next().expect("test response must be configured");
        reads += 1;
        match wait.after_poll(content, reads >= reads_before_deadline) {
            WaitStep::Found(html) => return Ok(html),
            WaitStep::Failed(error) => return Err(error),
            WaitStep::KeepPolling => {}
        }
    }
}

fn transient_then_loaded() -> Vec<Result<String, AppError>> {
    vec![
        Err(AppError::BrowserUnavailable("Error -32000: Could not find node with given id".to_string())),
        Ok("<html><body><div>loading...</div></body></html>".to_string()),
        Ok("<html><body><div class=\"row qb-movie\">loaded</div></body></html>".to_string()),
    ]
}

fn never_loaded() -> Vec<Result<String, AppError>> {
    vec![
        Ok("<html><body><div>loading...</div></body></html>".to_string()),
        Ok("<html><body><div>still loading...</div></body></html>".to_string()),
    ]
}

fn timeout_error() -> AppError {
    AppError::BrowserUnavailable(
        "Przekroczono limit czasu podczas oczekiwania na element `div.row.qb-movie` na stronie https://example.test/repertoire."
            .to_string(),
    )
}

#[test]
fn browser_wait_for_selector_in_rendered_html_retries_transient_missing_node_errors() {
    let rendered_html = wait_over(transient_then_loaded(), 10).expect("transient node lookup errors should be retried");
    assert!(rendered_html.contains("qb-movie"));
}

#[test]
fn browser_wait_for_selector_in_rendered_html_times_out_when_selector_never_appears() {
    assert_eq!(wait_over(never_loaded(), 2), Err(timeout_error()));
}

#[test]
fn cinema_city_wait_for_selector_in_rendered_html_retries_transient_missing_node_errors() {
    let rendered_html = wait_over(transient_then_loaded(), 10).expect("transient node lookup errors should be retried");
    assert!(rendered_html.contains("qb-movie"));
}

#[test]
fn cinema_city_wait_for_selector_in_rendered_html_times_out_when_selector_never_appears() {
    assert_eq!(wait_over(never_loaded(), 1), Err(timeout_error()));
}
