//! The decisions of a page render in a browser: which failures are retried, and when the
//! wait for a page's element ends.
use crate::error::{error_message, AppError};
use crate::retry::RetryDirective;
use crate::scrape::{document_matches, library_selector, name_views, select_in_document};
use crate::text::{chars_of, contains_seq, contains_str, push_str, string_of};
use vstd::prelude::*;

verus! {

/// A script to evaluate on a rendered page, under a name for its result.
#[derive(Debug, Clone, PartialEq, Eq)]
pub struct BrowserEvaluation {
    pub name: String,
    pub expression: String,
}

impl BrowserEvaluation {
    pub fn new(name: &str, expression: &str) -> (r: Self)
        ensures
            r.name@ == name@,
            r.expression@ == expression@,
    {
        BrowserEvaluation { name: string_of(chars_of(name).as_slice()), expression: string_of(chars_of(expression).as_slice()) }
    }
}

/// A rendered page: its HTML and the results of its evaluated scripts, in the order they
/// were evaluated.
#[derive(Debug, Clone, PartialEq, Eq)]
pub struct RenderedPage {
    pub html: String,
    pub evaluations: Vec<(String, String)>,
}

pub open spec fn result_views(v: Seq<(String, String)>) -> Seq<(Seq<char>, Seq<char>)> {
    v.map_values(|p: (String, String)| (p.0@, p.1@))
}

/// The result of the script named `name`: the last one evaluated under that name.
pub open spec fn evaluation_result(results: Seq<(Seq<char>, Seq<char>)>, name: Seq<char>) -> Option<Seq<char>>
    decreases results.len(),
{
    if results.len() == 0 {
        None
    } else if results.last().0 == name {
        Some(results.last().1)
    } else {
        evaluation_result(results.drop_last(), name)
    }
}

impl RenderedPage {
    pub fn evaluation(&self, name: &str) -> (r: Option<&str>)
        ensures
            match r {
                Some(v) => evaluation_result(result_views(self.evaluations@), name@) == Some(v@),
                None => evaluation_result(result_views(self.evaluations@), name@) is None,
            },
    {
        let n = chars_of(name);
        let ghost all = result_views(self.evaluations@);
        let mut i: usize = self.evaluations.len();
        assert(all.subrange(0, all.len() as int) =~= all);
        while i > 0
            invariant
                i <= self.evaluations@.len(),
                n@ == name@,
                all == result_views(self.evaluations@),
                evaluation_result(all, name@) == evaluation_result(all.subrange(0, i as int), name@),
            decreases i,
        {
            let ghost sub = all.subrange(0, i as int);
            assert(sub.last() == all[i - 1]);
            if crate::text::chars_eq(chars_of(self.evaluations[i - 1].0.as_str()).as_slice(), n.as_slice()) {
                return Some(self.evaluations[i - 1].1.as_str());
            }
            assert(sub.drop_last() =~= all.subrange(0, i - 1));
            i = i - 1;
        }
        None
    }
}

/// A browser failure that passes by itself: a node or a script context that vanished while
/// the page changed.
pub open spec fn transient_browser_error(error: AppError) -> bool {
    match error {
        AppError::BrowserUnavailable(m) => {
            ||| contains_seq(m@, "Could not find node with given id"@)
            ||| contains_seq(m@, "Cannot find context with specified id"@)
            ||| contains_seq(m@, "Execution context was destroyed"@)
        },
        _ => false,
    }
}

pub fn is_transient_browser_error(error: &AppError) -> (r: bool)
    ensures
        r == transient_browser_error(*error),
{
    match error {
        AppError::BrowserUnavailable(m) => {
            let c = chars_of(m.as_str());
            contains_str(c.as_slice(), "Could not find node with given id")
                || contains_str(c.as_slice(), "Cannot find context with specified id")
                || contains_str(c.as_slice(), "Execution context was destroyed")
        },
        _ => false,
    }
}

/// The message of a wait that ran out of time, with the last transient failure if any.
pub open spec fn wait_timeout_message(url: Seq<char>, wait_selector: Seq<char>, last: Option<AppError>) -> Seq<char> {
    let base = "Przekroczono limit czasu podczas oczekiwania na element `"@ + wait_selector + "` na stronie "@ + url + "."@;
    match last {
        Some(e) => base + " Ostatni błąd przeglądarki: "@ + error_message(e),
        None => base,
    }
}

pub fn build_wait_timeout_error(url: &str, wait_selector: &str, last_transient_error: Option<&AppError>) -> (r: AppError)
    ensures
        r matches AppError::BrowserUnavailable(m) && m@ == wait_timeout_message(url@, wait_selector@, match last_transient_error {
            Some(e) => Some(*e),
            None => None,
        }),
{
    let mut v = chars_of("Przekroczono limit czasu podczas oczekiwania na element `");
    push_str(&mut v, wait_selector);
    push_str(&mut v, "` na stronie ");
    push_str(&mut v, url);
    push_str(&mut v, ".");
    match last_transient_error {
        Some(e) => {
            push_str(&mut v, " Ostatni błąd przeglądarki: ");
            let m = e.message();
            push_str(&mut v, m.as_str());
        },
        None => {},
    }
    AppError::BrowserUnavailable(string_of(v.as_slice()))
}

/// A failed render: retried when the browser failed, given up otherwise.
pub fn classify_render_error(error: AppError) -> (r: RetryDirective<AppError>)
    ensures
        (error is BrowserUnavailable) ==> r == RetryDirective::Retry(error),
        !(error is BrowserUnavailable) ==> r == RetryDirective::Fail(error),
{
    match error {
        AppError::BrowserUnavailable(_) => RetryDirective::retry(error),
        _ => RetryDirective::fail(error),
    }
}

/// What the wait for an element does after reading the page once.
#[derive(Debug, Clone, PartialEq, Eq)]
pub enum WaitStep {
    /// The element is there: the page's HTML.
    Found(String),
    /// The wait ends with this error.
    Failed(AppError),
    /// Read the page again after the poll interval.
    KeepPolling,
}

/// The wait for an element to appear on a rendered page.
#[derive(Debug, Clone, PartialEq, Eq)]
pub struct SelectorWait {
    pub url: String,
    pub wait_selector: String,
    /// The last transient browser failure seen.
    pub last_transient_error: Option<AppError>,
    /// The page has been read at least once.
    pub polled: bool,
}

impl SelectorWait {
    pub fn new(url: String, wait_selector: String) -> (r: Self)
        ensures
            r.url == url,
            r.wait_selector == wait_selector,
            r.last_transient_error is None,
            !r.polled,
    {
        SelectorWait { url, wait_selector, last_transient_error: None, polled: false }
    }

    /// The error of a wait that ran out of time now.
    pub fn timeout_error(&self) -> (r: AppError)
        ensures
            r matches AppError::BrowserUnavailable(m) && m@ == wait_timeout_message(self.url@, self.wait_selector@, self.last_transient_error),
    {
        let last: Option<&AppError> = match &self.last_transient_error {
            Some(e) => Some(e),
            None => None,
        };
        build_wait_timeout_error(self.url.as_str(), self.wait_selector.as_str(), last)
    }

    /// Before reading the page: a wait whose deadline passed after a first read ends.
    pub fn before_poll(&self, deadline_passed: bool) -> (r: Option<AppError>)
        ensures
            (self.polled && deadline_passed) ==> (r matches Some(AppError::BrowserUnavailable(m))
                && m@ == wait_timeout_message(self.url@, self.wait_selector@, self.last_transient_error)),
            !(self.polled && deadline_passed) ==> r is None,
    {
        if self.polled && deadline_passed {
            Some(self.timeout_error())
        } else {
            None
        }
    }

    /// After reading the page: done when the element is there; a transient failure is kept and
    /// another failure ends the wait; otherwise the wait ends once the deadline has passed.
    pub fn after_poll(&mut self, content: Result<String, AppError>, deadline_passed: bool) -> (r: WaitStep)
        requires
            library_selector(old(self).wait_selector@),
        ensures
            final(self).url == old(self).url,
            final(self).wait_selector == old(self).wait_selector,
            final(self).polled,
            match content {
                Ok(html) => final(self).last_transient_error == old(self).last_transient_error && if document_matches(html@, old(self).wait_selector@, Seq::empty()).len() > 0 {
                    r == WaitStep::Found(html)
                } else if deadline_passed {
                    r matches WaitStep::Failed(AppError::BrowserUnavailable(m)) && m@ == wait_timeout_message(old(self).url@, old(self).wait_selector@, old(self).last_transient_error)
                } else {
                    r == WaitStep::KeepPolling
                },
                Err(e) => if transient_browser_error(e) {
                    &&& final(self).last_transient_error == Some(e)
                    &&& if deadline_passed {
                        r matches WaitStep::Failed(AppError::BrowserUnavailable(m)) && m@ == wait_timeout_message(old(self).url@, old(self).wait_selector@, Some(e))
                    } else {
                        r == WaitStep::KeepPolling
                    }
                } else {
                    final(self).last_transient_error == old(self).last_transient_error && r == WaitStep::Failed(e)
                },
            },
    {
        self.polled = true;
        match content {
            Ok(html) => {
                let names: Vec<&str> = Vec::new();
                let found = select_in_document(html.as_str(), self.wait_selector.as_str(), &names);
                assert(name_views(names@) =~= Seq::<Seq<char>>::empty());
                if found.len() > 0 {
                    return WaitStep::Found(html);
                }
            },
            Err(e) => {
                if is_transient_browser_error(&e) {
                    self.last_transient_error = Some(e);
                } else {
                    return WaitStep::Failed(e);
                }
            },
        }
        if deadline_passed {
            WaitStep::Failed(self.timeout_error())
        } else {
            WaitStep::KeepPolling
        }
    }
}

} // verus!
