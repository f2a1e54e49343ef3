//! HTML read with the `scraper` crate: the elements that a CSS selector matches, each as
//! plain values (its own HTML, its text, and the attributes asked for).
use vstd::prelude::*;
use crate::cinema_city::{
    CINEMA_VENUES_PAGE_READY_SELECTOR, LABELLED_SPAN_SELECTOR, LEGACY_CINEMA_VENUES_SELECTOR, MOVIE_INFO_SELECTOR,
    MOVIE_LINK_SELECTOR, MOVIE_NAME_SELECTOR, PLAY_DETAILS_SELECTOR, PLAY_TIME_SELECTOR, PRESALE_HEADING_SELECTOR,
    REPERTOIRE_PAGE_READY_SELECTOR, REPERTOIRE_SELECTOR, SCREENING_ATTRIBUTE_SELECTOR,
};
use crate::helios::{
    REPERTOIRE_PAGE_READY_SELECTOR as HELIOS_REPERTOIRE_READY_SELECTOR, VENUES_PAGE_READY_SELECTOR as HELIOS_VENUES_READY_SELECTOR,
    VENUE_LINK_SELECTOR,
};
use crate::patterns::{regex_replace_all, WHITESPACE_PATTERN};
use crate::text::{chars_of, collapse_ws_seq, string_of, trim, trim_seq};

verus! {

/// The selectors the library compiles; each is valid CSS selector syntax.
pub open spec fn library_selector(selector: Seq<char>) -> bool {
    ||| selector == VENUE_LINK_SELECTOR@
    ||| selector == HELIOS_VENUES_READY_SELECTOR@
    ||| selector == HELIOS_REPERTOIRE_READY_SELECTOR@
    ||| selector == LEGACY_CINEMA_VENUES_SELECTOR@
    ||| selector == REPERTOIRE_SELECTOR@
    ||| selector == REPERTOIRE_PAGE_READY_SELECTOR@
    ||| selector == CINEMA_VENUES_PAGE_READY_SELECTOR@
    ||| selector == MOVIE_NAME_SELECTOR@
    ||| selector == MOVIE_INFO_SELECTOR@
    ||| selector == LABELLED_SPAN_SELECTOR@
    ||| selector == SCREENING_ATTRIBUTE_SELECTOR@
    ||| selector == PLAY_TIME_SELECTOR@
    ||| selector == PLAY_DETAILS_SELECTOR@
    ||| selector == MOVIE_LINK_SELECTOR@
    ||| selector == PRESALE_HEADING_SELECTOR@
}

/// One element that a selector matched.
pub struct ScrapedElement {
    /// The element serialised as HTML, itself included.
    pub html: String,
    /// The element's descendant text nodes, concatenated in document order.
    pub text: String,
    /// The value of each requested attribute, in the order asked for.
    pub attributes: Vec<Option<String>>,
}

pub open spec fn optional_views(v: Seq<Option<String>>) -> Seq<Option<Seq<char>>> {
    Seq::new(v.len(), |i: int| match v[i] {
        Some(s) => Some(s@),
        None => None,
    })
}

impl ScrapedElement {
    pub open spec fn view_tuple(&self) -> (Seq<char>, Seq<char>, Seq<Option<Seq<char>>>) {
        (self.html@, self.text@, optional_views(self.attributes@))
    }
}

pub open spec fn scraped_views(v: Seq<ScrapedElement>) -> Seq<(Seq<char>, Seq<char>, Seq<Option<Seq<char>>>)> {
    Seq::new(v.len(), |i: int| v[i].view_tuple())
}

pub open spec fn name_views(names: Seq<&str>) -> Seq<Seq<char>> {
    Seq::new(names.len(), |i: int| names[i]@)
}

/// What `scraper` gives for `Html::parse_document(document).select(&Selector::parse(selector))`:
/// for each match in document order, its `html()`, its `text()` concatenated, and `attr(name)`
/// for each of `names`.
pub uninterp spec fn document_matches(document: Seq<char>, selector: Seq<char>, names: Seq<Seq<char>>) -> Seq<(Seq<char>, Seq<char>, Seq<Option<Seq<char>>>)>;

/// The same as `document_matches`, for a document read with `Html::parse_fragment`.
pub uninterp spec fn fragment_matches(fragment: Seq<char>, selector: Seq<char>, names: Seq<Seq<char>>) -> Seq<(Seq<char>, Seq<char>, Seq<Option<Seq<char>>>)>;

/// `scraper::Html::parse_document` and `Html::select`: the elements of a whole page that
/// `selector` matches. The contract names the result; HTML parsing and selector matching are
/// not restated. `Selector::parse` fails only on invalid syntax, which the library's
/// selectors do not have.
#[verifier::external_body]
pub(crate) fn select_in_document(document: &str, selector: &str, names: &Vec<&str>) -> (r: Vec<ScrapedElement>)
    requires
        library_selector(selector@),
    ensures
        scraped_views(r@) == document_matches(document@, selector@, name_views(names@)),
{
    let html = scraper::Html::parse_document(document);
    let selector = scraper::Selector::parse(selector).unwrap();
    html.select(&selector).map(|element| ScrapedElement {
        html: element.html(),
        text: element.text().collect::<String>(),
        attributes: names.iter().map(|name| element.attr(name).map(str::to_string)).collect(),
    }).collect()
}

/// `scraper::Html::parse_fragment` and `Html::select`: the elements of a piece of HTML (such
/// as one element's `html`) that `selector` matches. The contract names the result.
#[verifier::external_body]
pub(crate) fn select_in_fragment(fragment: &str, selector: &str, names: &Vec<&str>) -> (r: Vec<ScrapedElement>)
    requires
        library_selector(selector@),
    ensures
        scraped_views(r@) == fragment_matches(fragment@, selector@, name_views(names@)),
{
    let html = scraper::Html::parse_fragment(fragment);
    let selector = scraper::Selector::parse(selector).unwrap();
    html.select(&selector).map(|element| ScrapedElement {
        html: element.html(),
        text: element.text().collect::<String>(),
        attributes: names.iter().map(|name| element.attr(name).map(str::to_string)).collect(),
    }).collect()
}

/// The text of an element as the library shows it: every run of whitespace replaced by one
/// space, then trimmed.
pub open spec fn normalized_text_spec(raw: Seq<char>) -> Seq<char> {
    trim_seq(collapse_ws_seq(raw))
}

pub fn normalized_text(raw: &str) -> (r: String)
    ensures
        r@ == normalized_text_spec(raw@),
{
    let replaced = regex_replace_all(WHITESPACE_PATTERN, raw, " ");
    let chars = chars_of(replaced.as_str());
    let trimmed = trim(chars.as_slice());
    string_of(trimmed.as_slice())
}

} // verus!
