//! How titles and metadata of a repertoire movie are compared with TMDB's: the normal form
//! of a title, its words, and the similarity of two titles.
use crate::common::{opt_view, string_views};
use crate::domain::{MovieLookupMetadata, MoviePageFallbackDetails, TmdbLookupMovie, TmdbMovieDetails};
use crate::tmdb::{
    TmdbCredits, TmdbGenre, TmdbMovieDetailsResponse, TmdbProductionCountry, TmdbSearchResult,
};
use crate::patterns::{regex_replace_first, regex_replace_first_result, TITLE_SUFFIX_PATTERN};
use crate::text::{
    chars_eq, chars_of, contains, contains_seq, copy_range, decimal_seq, push_all, push_str,
    u64_to_decimal, is_ascii_alnum,
    is_ascii_alphanumeric, is_ws, lower_char, lower_seq, string_of, to_ascii_lowercase,
    to_ascii_lowercase_char, to_ascii_uppercase, trim, trim_end_seq, trim_seq, trim_start_seq,
    upper_seq, views_of,
};
use vstd::prelude::*;

verus! {

/// Accented letters replaced by their base letters (Polish, and the common Western and Czech
/// accents).
pub open spec fn fold_accent(c: char) -> char {
    if c == 'ą' || c == 'á' || c == 'à' || c == 'ä' || c == 'â' {
        'a'
    } else if c == 'ć' || c == 'č' {
        'c'
    } else if c == 'ę' || c == 'é' || c == 'è' || c == 'ë' || c == 'ê' {
        'e'
    } else if c == 'ł' {
        'l'
    } else if c == 'ń' {
        'n'
    } else if c == 'ó' || c == 'ö' || c == 'ô' || c == 'ò' {
        'o'
    } else if c == 'ś' || c == 'š' {
        's'
    } else if c == 'ź' || c == 'ż' || c == 'ž' {
        'z'
    } else if c == 'Ą' || c == 'Á' || c == 'À' || c == 'Ä' || c == 'Â' {
        'A'
    } else if c == 'Ć' || c == 'Č' {
        'C'
    } else if c == 'Ę' || c == 'É' || c == 'È' || c == 'Ë' || c == 'Ê' {
        'E'
    } else if c == 'Ł' {
        'L'
    } else if c == 'Ń' {
        'N'
    } else if c == 'Ó' || c == 'Ö' || c == 'Ô' || c == 'Ò' {
        'O'
    } else if c == 'Ś' || c == 'Š' {
        'S'
    } else if c == 'Ź' || c == 'Ż' || c == 'Ž' {
        'Z'
    } else {
        c
    }
}

pub fn fold_character(character: char) -> (r: char)
    ensures
        r == fold_accent(character),
{
    match character {
        'ą' | 'á' | 'à' | 'ä' | 'â' => 'a',
        'ć' | 'č' => 'c',
        'ę' | 'é' | 'è' | 'ë' | 'ê' => 'e',
        'ł' => 'l',
        'ń' => 'n',
        'ó' | 'ö' | 'ô' | 'ò' => 'o',
        'ś' | 'š' => 's',
        'ź' | 'ż' | 'ž' => 'z',
        'Ą' | 'Á' | 'À' | 'Ä' | 'Â' => 'A',
        'Ć' | 'Č' => 'C',
        'Ę' | 'É' | 'È' | 'Ë' | 'Ê' => 'E',
        'Ł' => 'L',
        'Ń' => 'N',
        'Ó' | 'Ö' | 'Ô' | 'Ò' => 'O',
        'Ś' | 'Š' => 'S',
        'Ź' | 'Ż' | 'Ž' => 'Z',
        _ => character,
    }
}

/// Each character folded and lower-cased; ASCII letters and digits kept, every run of other
/// characters turned into one space.
pub open spec fn comparison_raw(s: Seq<char>) -> Seq<char>
    decreases s.len(),
{
    if s.len() == 0 {
        Seq::empty()
    } else {
        let pre = comparison_raw(s.drop_last());
        let c = lower_char(fold_accent(s.last()));
        if is_ascii_alnum(c) {
            pre.push(c)
        } else if pre.len() > 0 && pre.last() == ' ' {
            pre
        } else {
            pre.push(' ')
        }
    }
}

/// The form in which titles, languages and names are compared: lower-case ASCII words
/// separated by single spaces.
pub open spec fn comparison_text(s: Seq<char>) -> Seq<char> {
    trim_seq(comparison_raw(s))
}

/// Only ASCII letters, digits and spaces.
pub open spec fn word_chars(s: Seq<char>) -> bool {
    forall|i: int| 0 <= i < s.len() ==> is_ascii_alnum(#[trigger] s[i]) || s[i] == ' '
}

proof fn lemma_comparison_raw_chars(s: Seq<char>)
    ensures
        word_chars(comparison_raw(s)),
    decreases s.len(),
{
    if s.len() > 0 {
        lemma_comparison_raw_chars(s.drop_last());
    }
}

proof fn lemma_trim_start_chars(s: Seq<char>)
    requires
        word_chars(s),
    ensures
        word_chars(trim_start_seq(s)),
    decreases s.len(),
{
    if s.len() > 0 && is_ws(s[0]) {
        assert(word_chars(s.drop_first())) by {
            assert forall|i: int| 0 <= i < s.drop_first().len() implies is_ascii_alnum(#[trigger] s.drop_first()[i])
                || s.drop_first()[i] == ' ' by {
                assert(s.drop_first()[i] == s[i + 1]);
            }
        }
        lemma_trim_start_chars(s.drop_first());
    }
}

proof fn lemma_trim_end_chars(s: Seq<char>)
    requires
        word_chars(s),
    ensures
        word_chars(trim_end_seq(s)),
    decreases s.len(),
{
    if s.len() > 0 && is_ws(s.last()) {
        assert(word_chars(s.drop_last())) by {
            assert forall|i: int| 0 <= i < s.drop_last().len() implies is_ascii_alnum(#[trigger] s.drop_last()[i])
                || s.drop_last()[i] == ' ' by {
                assert(s.drop_last()[i] == s[i]);
            }
        }
        lemma_trim_end_chars(s.drop_last());
    }
}

/// The comparison form holds nothing but ASCII letters, digits and spaces.
pub proof fn lemma_comparison_text_chars(s: Seq<char>)
    ensures
        word_chars(comparison_text(s)),
{
    lemma_comparison_raw_chars(s);
    lemma_trim_start_chars(comparison_raw(s));
    lemma_trim_end_chars(trim_start_seq(comparison_raw(s)));
}

pub fn normalize_for_comparison_chars(value: &[char]) -> (r: Vec<char>)
    ensures
        r@ == comparison_text(value@),
        word_chars(r@),
{
    let mut normalized: Vec<char> = Vec::new();
    let mut previous_was_separator = false;
    let mut i: usize = 0;
    while i < value.len()
        invariant
            i <= value@.len(),
            normalized@ == comparison_raw(value@.subrange(0, i as int)),
            previous_was_separator == (normalized@.len() > 0 && normalized@.last() == ' '),
        decreases value.len() - i,
    {
        assert(value@.subrange(0, i + 1).drop_last() =~= value@.subrange(0, i as int));
        let lowered = to_ascii_lowercase_char(fold_character(value[i]));
        if is_ascii_alphanumeric(lowered) {
            normalized.push(lowered);
            previous_was_separator = false;
        } else if !previous_was_separator {
            normalized.push(' ');
            previous_was_separator = true;
        }
        i = i + 1;
    }
    assert(value@.subrange(0, value@.len() as int) =~= value@);
    proof {
        lemma_comparison_text_chars(value@);
    }
    trim(normalized.as_slice())
}

/// The comparison form of `value`.
pub fn normalize_for_comparison(value: &str) -> (r: String)
    ensures
        r@ == comparison_text(value@),
{
    let v = chars_of(value);
    string_of(normalize_for_comparison_chars(v.as_slice()).as_slice())
}

/// The words of `s`: its maximal runs of characters other than a space
/// (`str::split_whitespace` on text whose only whitespace is the space).
pub open spec fn words_of(s: Seq<char>) -> Seq<Seq<char>>
    decreases s.len(),
{
    if s.len() == 0 {
        Seq::empty()
    } else {
        let pre = words_of(s.drop_last());
        let c = s.last();
        if c == ' ' {
            pre
        } else if s.len() >= 2 && s[s.len() - 2] != ' ' {
            pre.update(pre.len() - 1, pre.last().push(c))
        } else {
            pre.push(seq![c])
        }
    }
}

proof fn lemma_words_nonempty_end(s: Seq<char>)
    requires
        s.len() > 0,
        s.last() != ' ',
    ensures
        words_of(s).len() > 0,
    decreases s.len(),
{
    if s.len() >= 2 && s[s.len() - 2] != ' ' {
        assert(s.drop_last().last() == s[s.len() - 2]);
        lemma_words_nonempty_end(s.drop_last());
    }
}

pub fn words(s: &[char]) -> (r: Vec<Vec<char>>)
    ensures
        views_of(r@) == words_of(s@),
{
    let mut out: Vec<Vec<char>> = Vec::new();
    let mut i: usize = 0;
    while i < s.len()
        invariant
            i <= s@.len(),
            views_of(out@) == words_of(s@.subrange(0, i as int)),
        decreases s.len() - i,
    {
        let ghost pre = s@.subrange(0, i as int);
        let ghost cur = s@.subrange(0, i + 1);
        assert(cur.drop_last() =~= pre);
        assert(cur.last() == s@[i as int]);
        let c = s[i];
        if c == ' ' {
        } else if i >= 1 && s[i - 1] != ' ' {
            assert(cur[cur.len() - 2] == s@[i - 1]);
            proof {
                assert(pre.last() == s@[i - 1]);
                lemma_words_nonempty_end(pre);
            }
            let ghost before = views_of(out@);
            let mut w = out.pop().unwrap();
            w.push(c);
            out.push(w);
            assert(views_of(out@) =~= before.update(before.len() - 1, before.last().push(c)));
        } else {
            let ghost before = views_of(out@);
            let mut w: Vec<char> = Vec::new();
            w.push(c);
            out.push(w);
            assert(views_of(out@) =~= before.push(seq![c]));
        }
        i = i + 1;
    }
    assert(s@.subrange(0, s@.len() as int) =~= s@);
    out
}

/// The set of words of `s`.
pub open spec fn token_set(s: Seq<char>) -> Set<Seq<char>> {
    words_of(s).to_set()
}

proof fn lemma_push_to_set<A>(s: Seq<A>, x: A)
    ensures
        s.push(x).to_set() == s.to_set().insert(x),
{
    assert forall|y: A| #[trigger] s.push(x).to_set().contains(y) == s.to_set().insert(x).contains(y) by {
        if s.contains(y) {
            let k = choose|k: int| 0 <= k < s.len() && s[k] == y;
            assert(s.push(x)[k] == y);
        }
        if y == x {
            assert(s.push(x)[s.len() as int] == x);
        }
        if s.push(x).contains(y) {
            let k = choose|k: int| 0 <= k < s.push(x).len() && s.push(x)[k] == y;
            if k < s.len() {
                assert(s[k] == y);
            }
        }
    }
    assert(s.push(x).to_set() =~= s.to_set().insert(x));
}

/// `w` is one of `ws`.
pub fn contains_word(ws: &Vec<Vec<char>>, w: &[char]) -> (r: bool)
    ensures
        r == views_of(ws@).contains(w@),
{
    let mut i: usize = 0;
    while i < ws.len()
        invariant
            i <= ws@.len(),
            forall|j: int| 0 <= j < i ==> views_of(ws@)[j] != w@,
        decreases ws.len() - i,
    {
        if chars_eq(ws[i].as_slice(), w) {
            assert(views_of(ws@)[i as int] == w@);
            return true;
        }
        i = i + 1;
    }
    false
}

/// The words of `ws`, each once, in the order of first appearance.
pub fn distinct_words(ws: &Vec<Vec<char>>) -> (r: Vec<Vec<char>>)
    ensures
        views_of(r@).no_duplicates(),
        views_of(r@).to_set() == views_of(ws@).to_set(),
{
    let mut out: Vec<Vec<char>> = Vec::new();
    let mut i: usize = 0;
    while i < ws.len()
        invariant
            i <= ws@.len(),
            views_of(out@).no_duplicates(),
            views_of(out@).to_set() == views_of(ws@.subrange(0, i as int)).to_set(),
        decreases ws.len() - i,
    {
        let ghost before = views_of(out@);
        assert(views_of(ws@.subrange(0, i + 1)) =~= views_of(ws@.subrange(0, i as int)).push(ws@[i as int]@));
        proof {
            lemma_push_to_set(views_of(ws@.subrange(0, i as int)), ws@[i as int]@);
        }
        if !contains_word(&out, ws[i].as_slice()) {
            let w = copy_word(ws[i].as_slice());
            out.push(w);
            assert(views_of(out@) =~= before.push(ws@[i as int]@));
            proof {
                lemma_push_to_set(before, ws@[i as int]@);
            }
        } else {
            assert(before.to_set().contains(ws@[i as int]@));
            assert(before.to_set().insert(ws@[i as int]@) =~= before.to_set());
        }
        i = i + 1;
    }
    assert(ws@.subrange(0, ws@.len() as int) =~= ws@);
    out
}

fn copy_word(w: &[char]) -> (r: Vec<char>)
    ensures
        r@ == w@,
{
    let mut r: Vec<char> = Vec::new();
    let mut i: usize = 0;
    while i < w.len()
        invariant
            i <= w@.len(),
            r@ == w@.subrange(0, i as int),
        decreases w.len() - i,
    {
        r.push(w[i]);
        assert(r@ =~= w@.subrange(0, i + 1));
        i = i + 1;
    }
    r
}

/// Whether `a` and `b` have the same set of words.
pub fn same_token_set(a: &[char], b: &[char]) -> (r: bool)
    ensures
        r == (token_set(a@) == token_set(b@)),
{
    let wa = words(a);
    let wb = words(b);
    let mut i: usize = 0;
    while i < wa.len()
        invariant
            i <= wa@.len(),
            views_of(wa@) == words_of(a@),
            views_of(wb@) == words_of(b@),
            forall|j: int| 0 <= j < i ==> views_of(wb@).contains(#[trigger] views_of(wa@)[j]),
        decreases wa.len() - i,
    {
        if !contains_word(&wb, wa[i].as_slice()) {
            assert(words_of(a@)[i as int] == views_of(wa@)[i as int]);
            assert(token_set(a@).contains(views_of(wa@)[i as int]));
            assert(token_set(b@) == views_of(wb@).to_set());
            assert(token_set(a@) != token_set(b@));
            return false;
        }
        i = i + 1;
    }
    let mut k: usize = 0;
    while k < wb.len()
        invariant
            k <= wb@.len(),
            views_of(wa@) == words_of(a@),
            views_of(wb@) == words_of(b@),
            forall|j: int| 0 <= j < wa@.len() ==> views_of(wb@).contains(#[trigger] views_of(wa@)[j]),
            forall|j: int| 0 <= j < k ==> views_of(wa@).contains(#[trigger] views_of(wb@)[j]),
        decreases wb.len() - k,
    {
        if !contains_word(&wa, wb[k].as_slice()) {
            assert(words_of(b@)[k as int] == views_of(wb@)[k as int]);
            assert(token_set(b@).contains(views_of(wb@)[k as int]));
            assert(token_set(a@) == views_of(wa@).to_set());
            assert(token_set(a@) != token_set(b@));
            return false;
        }
        k = k + 1;
    }
    assert forall|x: Seq<char>| #[trigger] token_set(a@).contains(x) implies token_set(b@).contains(x) by {
        let j = choose|j: int| 0 <= j < words_of(a@).len() && words_of(a@)[j] == x;
        assert(views_of(wa@)[j] == x);
    }
    assert forall|x: Seq<char>| #[trigger] token_set(b@).contains(x) implies token_set(a@).contains(x) by {
        let j = choose|j: int| 0 <= j < words_of(b@).len() && words_of(b@)[j] == x;
        assert(views_of(wb@)[j] == x);
    }
    assert(token_set(a@) =~= token_set(b@));
    true
}

/// The number of words shared by `a` and `b`, and the number of words in either.
pub fn token_overlap(a: &[char], b: &[char]) -> (r: (usize, u128))
    ensures
        r.0 == token_set(a@).intersect(token_set(b@)).len(),
        r.1 == token_set(a@).union(token_set(b@)).len(),
        r.1 <= 0x2_0000_0000_0000_0000,
{
    let da = distinct_words(&words(a));
    let db = distinct_words(&words(b));
    let mut shared: Vec<Vec<char>> = Vec::new();
    let mut i: usize = 0;
    while i < da.len()
        invariant
            i <= da@.len(),
            views_of(da@).no_duplicates(),
            views_of(shared@).no_duplicates(),
            views_of(shared@).to_set() == views_of(da@.subrange(0, i as int)).to_set().intersect(views_of(db@).to_set()),
        decreases da.len() - i,
    {
        let ghost before = views_of(shared@);
        assert(views_of(da@.subrange(0, i + 1)) =~= views_of(da@.subrange(0, i as int)).push(da@[i as int]@));
        if contains_word(&db, da[i].as_slice()) {
            proof {
                assert forall|j: int| 0 <= j < before.len() implies before[j] != da@[i as int]@ by {
                    assert(views_of(shared@).to_set().contains(before[j]));
                    let k = choose|k: int| 0 <= k < i && views_of(da@.subrange(0, i as int))[k] == before[j];
                    assert(views_of(da@)[k] == before[j]);
                    assert(views_of(da@)[i as int] == da@[i as int]@);
                }
            }
            let w = copy_word(da[i].as_slice());
            shared.push(w);
            assert(views_of(shared@) =~= before.push(da@[i as int]@));
            proof {
                lemma_push_to_set(before, da@[i as int]@);
            }
        }
        proof {
            lemma_push_to_set(views_of(da@.subrange(0, i as int)), da@[i as int]@);
        }
        assert(views_of(shared@).to_set() =~= views_of(da@.subrange(0, i + 1)).to_set().intersect(views_of(db@).to_set()));
        i = i + 1;
    }
    assert(da@.subrange(0, da@.len() as int) =~= da@);
    proof {
        views_of(shared@).unique_seq_to_set();
        views_of(da@).unique_seq_to_set();
        views_of(db@).unique_seq_to_set();
        vstd::set_lib::lemma_set_intersect_union_lens(token_set(a@), token_set(b@));
        assert(views_of(da@).len() == da@.len());
        assert(views_of(db@).len() == db@.len());
        assert(views_of(shared@).len() == shared@.len());
        assert(token_set(a@).intersect(token_set(b@)).len() <= token_set(a@).len()) by {
            vstd::set_lib::lemma_len_intersect(token_set(a@), token_set(b@));
        }
    }
    let union_len: u128 = (da.len() as u128) + (db.len() as u128) - (shared.len() as u128);
    (shared.len(), union_len)
}


/// The characters stripped from both ends of a search query.
pub open spec fn is_query_edge(c: char) -> bool {
    c == '-' || c == '–' || c == ':' || c == '|' || c == '/' || c == '(' || c == ')' || c == '['
        || c == ']'
}

fn is_query_edge_char(c: char) -> (r: bool)
    ensures
        r == is_query_edge(c),
{
    c == '-' || c == '–' || c == ':' || c == '|' || c == '/' || c == '(' || c == ')' || c == '['
        || c == ']'
}

/// `s` without the query-edge characters at its start and its end (`str::trim_matches`).
pub open spec fn trim_edges_seq(s: Seq<char>) -> Seq<char>
    decreases s.len(),
{
    if s.len() > 0 && is_query_edge(s[0]) {
        trim_edges_seq(s.drop_first())
    } else if s.len() > 0 && is_query_edge(s.last()) {
        trim_edges_seq(s.drop_last())
    } else {
        s
    }
}

fn trim_edges(s: &[char]) -> (r: Vec<char>)
    ensures
        r@ == trim_edges_seq(s@),
{
    let mut start: usize = 0;
    let mut end: usize = s.len();
    assert(s@.subrange(0, s@.len() as int) =~= s@);
    while start < end && (is_query_edge_char(s[start]) || is_query_edge_char(s[end - 1]))
        invariant
            start <= end <= s@.len(),
            trim_edges_seq(s@) == trim_edges_seq(s@.subrange(start as int, end as int)),
        decreases end - start,
    {
        let ghost t = s@.subrange(start as int, end as int);
        if is_query_edge_char(s[start]) {
            assert(t[0] == s@[start as int]);
            assert(t.drop_first() =~= s@.subrange(start + 1, end as int));
            start = start + 1;
        } else {
            assert(t[0] == s@[start as int]);
            assert(t.last() == s@[end - 1]);
            assert(t.drop_last() =~= s@.subrange(start as int, end - 1));
            end = end - 1;
        }
    }
    proof {
        let t = s@.subrange(start as int, end as int);
        if t.len() > 0 {
            assert(t[0] == s@[start as int]);
            assert(t.last() == s@[end - 1]);
        }
    }
    copy_range(s, start, end)
}

/// The search query for a title: the title without the screening notes at its end (dubbing,
/// subtitles, voice-over), trimmed of spaces and edge punctuation; the trimmed title itself
/// when nothing would be left.
pub open spec fn search_query_spec(title: Seq<char>) -> Seq<char> {
    let stripped = trim_edges_seq(trim_seq(regex_replace_first_result(TITLE_SUFFIX_PATTERN@, title, ""@)));
    if stripped.len() == 0 {
        trim_seq(title)
    } else {
        stripped
    }
}

pub fn build_search_query(title: &str) -> (r: String)
    ensures
        r@ == search_query_spec(title@),
{
    let stripped_title = regex_replace_first(TITLE_SUFFIX_PATTERN, title, "");
    let stripped = trim_edges(trim(chars_of(stripped_title.as_str()).as_slice()).as_slice());
    if stripped.len() == 0 {
        string_of(trim(chars_of(title).as_slice()).as_slice())
    } else {
        string_of(stripped.as_slice())
    }
}

/// `queries` with the query of `title` added, unless it is empty or the same as one already
/// there once both are in comparison form.
pub open spec fn add_query(queries: Seq<Seq<char>>, title: Seq<char>) -> Seq<Seq<char>> {
    let q = search_query_spec(title);
    let n = comparison_text(q);
    if n.len() == 0 || exists|i: int| 0 <= i < queries.len() && comparison_text(#[trigger] queries[i]) == n {
        queries
    } else {
        queries.push(q)
    }
}

pub open spec fn add_queries(queries: Seq<Seq<char>>, titles: Seq<String>) -> Seq<Seq<char>>
    decreases titles.len(),
{
    if titles.len() == 0 {
        queries
    } else {
        add_query(add_queries(queries, titles.drop_last()), titles.last()@)
    }
}

/// The TMDB searches for a movie: its title, its alternate titles, and the original title
/// from its movie page when one was read.
pub open spec fn search_queries_spec(movie: TmdbLookupMovie, fallback: Option<MoviePageFallbackDetails>) -> Seq<Seq<char>> {
    let base = add_queries(add_query(Seq::empty(), movie.title@), movie.lookup_metadata.alternate_titles@);
    match fallback {
        Some(f) => match f.original_title {
            Some(t) => add_query(base, t@),
            None => base,
        },
        None => base,
    }
}

fn push_search_query(queries: &mut Vec<String>, title: &str)
    ensures
        string_views(final(queries)@) == add_query(string_views(old(queries)@), title@),
{
    let query = build_search_query(title);
    let normalized_query = normalize_for_comparison_chars(chars_of(query.as_str()).as_slice());
    let ghost qs = string_views(queries@);
    if normalized_query.len() == 0 {
        return;
    }
    let mut i: usize = 0;
    while i < queries.len()
        invariant
            i <= queries@.len(),
            qs == string_views(queries@),
            normalized_query@ == comparison_text(search_query_spec(title@)),
            forall|j: int| 0 <= j < i ==> comparison_text(#[trigger] qs[j]) != normalized_query@,
        decreases queries.len() - i,
    {
        let existing = normalize_for_comparison_chars(chars_of(queries[i].as_str()).as_slice());
        if chars_eq(existing.as_slice(), normalized_query.as_slice()) {
            assert(qs[i as int] == queries@[i as int]@);
            return;
        }
        assert(qs[i as int] == queries@[i as int]@);
        i = i + 1;
    }
    queries.push(query);
    assert(string_views(queries@) =~= qs.push(search_query_spec(title@)));
}

pub fn build_search_queries(movie: &TmdbLookupMovie, fallback_details: Option<&MoviePageFallbackDetails>) -> (r: Vec<String>)
    ensures
        string_views(r@) == search_queries_spec(*movie, match fallback_details {
            Some(f) => Some(*f),
            None => None,
        }),
{
    let mut queries: Vec<String> = Vec::new();
    assert(string_views(queries@) =~= Seq::<Seq<char>>::empty());
    push_search_query(&mut queries, movie.title.as_str());
    let ghost first = string_views(queries@);
    let alternates = &movie.lookup_metadata.alternate_titles;
    let mut i: usize = 0;
    while i < alternates.len()
        invariant
            i <= alternates@.len(),
            alternates == &movie.lookup_metadata.alternate_titles,
            string_views(queries@) == add_queries(first, alternates@.subrange(0, i as int)),
        decreases alternates.len() - i,
    {
        assert(alternates@.subrange(0, i + 1).drop_last() =~= alternates@.subrange(0, i as int));
        push_search_query(&mut queries, alternates[i].as_str());
        i = i + 1;
    }
    assert(alternates@.subrange(0, alternates@.len() as int) =~= alternates@);
    match fallback_details {
        Some(f) => match &f.original_title {
            Some(t) => push_search_query(&mut queries, t.as_str()),
            None => {},
        },
        None => {},
    }
    queries
}

/// `variants` with the comparison form of `text` added, unless it is empty or already there.
pub open spec fn add_variant(variants: Seq<Seq<char>>, text: Seq<char>) -> Seq<Seq<char>> {
    let n = comparison_text(text);
    if n.len() == 0 || variants.contains(n) {
        variants
    } else {
        variants.push(n)
    }
}

/// The forms under which a title is recognised: the title itself and its search query.
pub open spec fn add_title_variants(variants: Seq<Seq<char>>, title: Seq<char>) -> Seq<Seq<char>> {
    add_variant(add_variant(variants, trim_seq(title)), search_query_spec(title))
}

pub open spec fn add_titles_variants(variants: Seq<Seq<char>>, titles: Seq<String>) -> Seq<Seq<char>>
    decreases titles.len(),
{
    if titles.len() == 0 {
        variants
    } else {
        add_title_variants(add_titles_variants(variants, titles.drop_last()), titles.last()@)
    }
}

/// The comparison forms of all titles of a movie: its title, its alternate titles and the
/// original title from its movie page.
pub open spec fn title_variants_spec(movie: TmdbLookupMovie, fallback: Option<MoviePageFallbackDetails>) -> Seq<Seq<char>> {
    let base = add_titles_variants(add_title_variants(Seq::empty(), movie.title@), movie.lookup_metadata.alternate_titles@);
    match fallback {
        Some(f) => match f.original_title {
            Some(t) => add_title_variants(base, t@),
            None => base,
        },
        None => base,
    }
}

/// Every variant is in comparison form.
pub open spec fn variants_normal(variants: Seq<Seq<char>>) -> bool {
    forall|i: int| 0 <= i < variants.len() ==> word_chars(#[trigger] variants[i])
}

fn push_variant(variants: &mut Vec<Vec<char>>, text: &[char])
    requires
        variants_normal(views_of(old(variants)@)),
    ensures
        views_of(final(variants)@) == add_variant(views_of(old(variants)@), text@),
        variants_normal(views_of(final(variants)@)),
{
    let n = normalize_for_comparison_chars(text);
    if n.len() == 0 || contains_word(variants, n.as_slice()) {
        return;
    }
    let ghost before = views_of(variants@);
    variants.push(n);
    assert(views_of(variants@) =~= before.push(comparison_text(text@)));
}

fn push_title_variants(variants: &mut Vec<Vec<char>>, title: &str)
    requires
        variants_normal(views_of(old(variants)@)),
    ensures
        views_of(final(variants)@) == add_title_variants(views_of(old(variants)@), title@),
        variants_normal(views_of(final(variants)@)),
{
    let trimmed = trim(chars_of(title).as_slice());
    push_variant(variants, trimmed.as_slice());
    let query = build_search_query(title);
    push_variant(variants, chars_of(query.as_str()).as_slice());
}

pub fn build_title_variants(movie: &TmdbLookupMovie, fallback_details: Option<&MoviePageFallbackDetails>) -> (r: Vec<Vec<char>>)
    ensures
        views_of(r@) == title_variants_spec(*movie, match fallback_details {
            Some(f) => Some(*f),
            None => None,
        }),
        variants_normal(views_of(r@)),
{
    let mut variants: Vec<Vec<char>> = Vec::new();
    assert(views_of(variants@) =~= Seq::<Seq<char>>::empty());
    push_title_variants(&mut variants, movie.title.as_str());
    let ghost first = views_of(variants@);
    let alternates = &movie.lookup_metadata.alternate_titles;
    let mut i: usize = 0;
    while i < alternates.len()
        invariant
            i <= alternates@.len(),
            alternates == &movie.lookup_metadata.alternate_titles,
            views_of(variants@) == add_titles_variants(first, alternates@.subrange(0, i as int)),
            variants_normal(views_of(variants@)),
        decreases alternates.len() - i,
    {
        assert(alternates@.subrange(0, i + 1).drop_last() =~= alternates@.subrange(0, i as int));
        push_title_variants(&mut variants, alternates[i].as_str());
        i = i + 1;
    }
    assert(alternates@.subrange(0, alternates@.len() as int) =~= alternates@);
    match fallback_details {
        Some(f) => match &f.original_title {
            Some(t) => push_title_variants(&mut variants, t.as_str()),
            None => {},
        },
        None => {},
    }
    variants
}

/// The word sets of `a` and `b` are both non-empty and share at least `num / den` of all
/// their words.
pub open spec fn similar_at_least(a: Seq<char>, b: Seq<char>, num: int, den: int) -> bool {
    let sa = token_set(a);
    let sb = token_set(b);
    sa.len() > 0 && sb.len() > 0 && den * sa.intersect(sb).len() >= num * sa.union(sb).len()
}

/// How well a title variant matches a candidate title (both in comparison form): `exact` for
/// the same text, `token` for the same words, `contains` when one holds the other, and the
/// similarity scores when at least 80% or 60% of their words are shared.
pub open spec fn variant_score(
    variant: Seq<char>,
    candidate: Seq<char>,
    exact: int,
    token: int,
    contains_points: int,
    high: int,
    medium: int,
) -> int {
    if variant.len() == 0 || candidate.len() == 0 {
        0
    } else if variant == candidate {
        exact
    } else if token_set(variant) == token_set(candidate) {
        token
    } else if contains_seq(candidate, variant) || contains_seq(variant, candidate) {
        contains_points
    } else if similar_at_least(variant, candidate, 4, 5) {
        high
    } else if similar_at_least(variant, candidate, 3, 5) {
        medium
    } else {
        0
    }
}

/// Scores a title variant against a candidate title. Both are in comparison form, so their
/// words are what `split_whitespace` finds; the share of common words is compared as a
/// ratio of whole numbers.
pub fn score_title_variant(
    variant: &[char],
    candidate: &[char],
    exact_score: i32,
    token_score: i32,
    contains_score: i32,
    high_similarity_score: i32,
    medium_similarity_score: i32,
) -> (r: i32)
    requires
        word_chars(variant@),
        word_chars(candidate@),
    ensures
        r == variant_score(
            variant@,
            candidate@,
            exact_score as int,
            token_score as int,
            contains_score as int,
            high_similarity_score as int,
            medium_similarity_score as int,
        ),
{
    if variant.len() == 0 || candidate.len() == 0 {
        return 0;
    }
    if chars_eq(variant, candidate) {
        return exact_score;
    }
    if same_token_set(variant, candidate) {
        return token_score;
    }
    if contains(candidate, variant) || contains(variant, candidate) {
        return contains_score;
    }
    let (shared, union) = token_overlap(variant, candidate);
    let left = distinct_words(&words(variant));
    let right = distinct_words(&words(candidate));
    proof {
        views_of(left@).unique_seq_to_set();
        views_of(right@).unique_seq_to_set();
    }
    if left.len() == 0 || right.len() == 0 {
        return 0;
    }
    let shared_wide: u128 = shared as u128;
    if 5 * shared_wide >= 4 * union {
        return high_similarity_score;
    }
    if 5 * shared_wide >= 3 * union {
        return medium_similarity_score;
    }
    0
}

/// The best score of any variant against a candidate title in comparison form.
pub open spec fn best_variant_score(variants: Seq<Seq<char>>, candidate: Seq<char>) -> int
    decreases variants.len(),
{
    if variants.len() == 0 {
        0
    } else {
        let pre = best_variant_score(variants.drop_last(), candidate);
        let here = variant_score(variants.last(), candidate, 100, 82, 68, 56, 40);
        if here > pre {
            here
        } else {
            pre
        }
    }
}

/// The score of one candidate title: the best variant score against its comparison form.
pub open spec fn single_title_score(variants: Seq<Seq<char>>, title: Seq<char>) -> int {
    let n = comparison_text(title);
    if n.len() == 0 {
        0
    } else {
        best_variant_score(variants, n)
    }
}

proof fn lemma_variant_score_bounds(v: Seq<char>, c: Seq<char>)
    ensures
        0 <= variant_score(v, c, 100, 82, 68, 56, 40) <= 100,
{
}

proof fn lemma_best_variant_bounds(variants: Seq<Seq<char>>, c: Seq<char>)
    ensures
        0 <= best_variant_score(variants, c) <= 100,
    decreases variants.len(),
{
    if variants.len() > 0 {
        lemma_best_variant_bounds(variants.drop_last(), c);
        lemma_variant_score_bounds(variants.last(), c);
    }
}

fn score_single_title(variants: &Vec<Vec<char>>, candidate_title: &str) -> (r: i32)
    requires
        variants_normal(views_of(variants@)),
    ensures
        r == single_title_score(views_of(variants@), candidate_title@),
        0 <= r <= 100,
{
    let normalized_candidate = normalize_for_comparison_chars(chars_of(candidate_title).as_slice());
    if normalized_candidate.len() == 0 {
        return 0;
    }
    let mut best: i32 = 0;
    let mut i: usize = 0;
    while i < variants.len()
        invariant
            i <= variants@.len(),
            variants_normal(views_of(variants@)),
            word_chars(normalized_candidate@),
            best == best_variant_score(views_of(variants@).subrange(0, i as int), normalized_candidate@),
        decreases variants.len() - i,
    {
        proof {
            lemma_best_variant_bounds(views_of(variants@).subrange(0, i as int), normalized_candidate@);
            assert(views_of(variants@).subrange(0, i + 1).drop_last() =~= views_of(variants@).subrange(0, i as int));
            assert(views_of(variants@)[i as int] == variants@[i as int]@);
        }
        let here = score_title_variant(variants[i].as_slice(), normalized_candidate.as_slice(), 100, 82, 68, 56, 40);
        if here > best {
            best = here;
        }
        i = i + 1;
    }
    assert(views_of(variants@).subrange(0, variants@.len() as int) =~= views_of(variants@));
    proof {
        lemma_best_variant_bounds(views_of(variants@), normalized_candidate@);
    }
    best
}

/// The title score of a candidate with the titles `t1` and `t2`: the better of their scores,
/// zero for a missing title.
pub open spec fn title_score_spec(variants: Seq<Seq<char>>, t1: Option<String>, t2: Option<String>) -> int {
    let s1 = match t1 {
        Some(t) => single_title_score(variants, t@),
        None => 0,
    };
    let s2 = match t2 {
        Some(t) => single_title_score(variants, t@),
        None => 0,
    };
    if s1 >= s2 {
        s1
    } else {
        s2
    }
}

pub fn title_score(variants: &Vec<Vec<char>>, title: &Option<String>, original_title: &Option<String>) -> (r: i32)
    requires
        variants_normal(views_of(variants@)),
    ensures
        r == title_score_spec(views_of(variants@), *title, *original_title),
        0 <= r <= 100,
{
    let s1 = match title {
        Some(t) => score_single_title(variants, t.as_str()),
        None => 0,
    };
    let s2 = match original_title {
        Some(t) => score_single_title(variants, t.as_str()),
        None => 0,
    };
    if s1 >= s2 {
        s1
    } else {
        s2
    }
}

/// What `chrono` makes of a release date read with the format `%Y-%m-%d`: its year, or
/// nothing when the text is not such a date.
pub uninterp spec fn chrono_release_year(text: Seq<char>) -> Option<i32>;

/// `chrono::NaiveDate::parse_from_str(text, "%Y-%m-%d")` and `Datelike::year`. The contract
/// names the result; chrono's parser is not restated.
#[verifier::external_body]
fn parse_release_year(release_date: &str) -> (r: Option<i32>)
    ensures
        r == chrono_release_year(release_date@),
{
    match chrono::NaiveDate::parse_from_str(release_date, "%Y-%m-%d") {
        Ok(date) => Some(chrono::Datelike::year(&date)),
        Err(_) => None,
    }
}

pub open spec fn release_year_of(release_date: Option<String>) -> Option<i32> {
    match release_date {
        Some(d) => chrono_release_year(d@),
        None => None,
    }
}

fn release_year(release_date: &Option<String>) -> (r: Option<i32>)
    ensures
        r == release_year_of(*release_date),
{
    match release_date {
        Some(d) => parse_release_year(d.as_str()),
        None => None,
    }
}

/// The year a movie is searched for: its production year, else the year of its Polish
/// premiere.
pub open spec fn search_year_spec(metadata: MovieLookupMetadata) -> Option<i32> {
    match metadata.production_year {
        Some(y) => Some(y),
        None => release_year_of(metadata.polish_premiere_date),
    }
}

pub fn resolve_search_year(metadata: &MovieLookupMetadata) -> (r: Option<i32>)
    ensures
        r == search_year_spec(*metadata),
{
    match metadata.production_year {
        Some(y) => Some(y),
        None => release_year(&metadata.polish_premiere_date),
    }
}

pub open spec fn abs_diff(a: int, b: int) -> int {
    if a >= b {
        a - b
    } else {
        b - a
    }
}

/// Points for the release year: 20 for the expected year, 10 and 5 for one and two years off.
pub open spec fn year_points(expected: Option<i32>, release_date: Option<String>) -> int {
    match (expected, release_year_of(release_date)) {
        (Some(e), Some(c)) => {
            let d = abs_diff(c as int, e as int);
            if d == 0 {
                20
            } else if d == 1 {
                10
            } else if d == 2 {
                5
            } else {
                0
            }
        },
        _ => 0,
    }
}

fn year_distance(expected: i32, candidate: i32) -> (r: i64)
    ensures
        r == abs_diff(candidate as int, expected as int),
{
    let e = expected as i64;
    let c = candidate as i64;
    if c >= e {
        c - e
    } else {
        e - c
    }
}

pub fn year_score(expected_year: Option<i32>, release_date: &Option<String>) -> (r: i32)
    ensures
        r == year_points(expected_year, *release_date),
{
    let expected = match expected_year {
        Some(y) => y,
        None => return 0,
    };
    let candidate = match release_year(release_date) {
        Some(y) => y,
        None => return 0,
    };
    let d = year_distance(expected, candidate);
    if d == 0 {
        20
    } else if d == 1 {
        10
    } else if d == 2 {
        5
    } else {
        0
    }
}

/// The first word of `s`, or nothing.
pub open spec fn first_word(s: Seq<char>) -> Seq<char> {
    if words_of(s).len() > 0 {
        words_of(s)[0]
    } else {
        Seq::empty()
    }
}

/// A language code in the form it is compared in: the first word of its comparison form,
/// upper-cased.
pub open spec fn language_code_spec(value: Seq<char>) -> Seq<char> {
    upper_seq(first_word(comparison_text(value)))
}

pub fn normalize_language_code(value: &str) -> (r: Vec<char>)
    ensures
        r@ == language_code_spec(value@),
{
    let n = normalize_for_comparison_chars(chars_of(value).as_slice());
    let ws = words(n.as_slice());
    if ws.len() > 0 {
        assert(views_of(ws@)[0] == ws@[0]@);
        to_ascii_uppercase(ws[0].as_slice())
    } else {
        let empty: Vec<char> = Vec::new();
        assert(upper_seq(Seq::<char>::empty()) =~= Seq::<char>::empty());
        empty
    }
}

/// The codes of an expected and a candidate language, when both are known.
pub open spec fn language_pair(expected: Option<String>, candidate: Option<String>) -> Option<(Seq<char>, Seq<char>)> {
    match (expected, candidate) {
        (Some(e), Some(c)) => Some((language_code_spec(e@), language_code_spec(c@))),
        _ => None,
    }
}

/// Points for the original language: 12 when both are known and equal.
pub open spec fn language_points(expected: Option<String>, candidate: Option<String>) -> int {
    match language_pair(expected, candidate) {
        Some((e, c)) => if e == c {
            12
        } else {
            0
        },
        None => 0,
    }
}

pub fn language_score(expected_language: &Option<String>, candidate_language: &Option<String>) -> (r: i32)
    ensures
        r == language_points(*expected_language, *candidate_language),
{
    match (expected_language, candidate_language) {
        (Some(e), Some(c)) => {
            let ec = normalize_language_code(e.as_str());
            let cc = normalize_language_code(c.as_str());
            if chars_eq(ec.as_slice(), cc.as_slice()) {
                12
            } else {
                0
            }
        },
        _ => 0,
    }
}

/// Points for the running time: 18 for the same length, 12 up to five minutes off, 6 up to
/// ten.
pub open spec fn runtime_points(expected: Option<u16>, candidate: Option<u16>) -> int {
    match (expected, candidate) {
        (Some(e), Some(c)) => {
            let d = abs_diff(e as int, c as int);
            if d == 0 {
                18
            } else if d <= 5 {
                12
            } else if d <= 10 {
                6
            } else {
                0
            }
        },
        _ => 0,
    }
}

pub fn runtime_score(expected_runtime: Option<u16>, candidate_runtime: Option<u16>) -> (r: i32)
    ensures
        r == runtime_points(expected_runtime, candidate_runtime),
{
    match (expected_runtime, candidate_runtime) {
        (Some(e), Some(c)) => {
            let d = if e >= c {
                e - c
            } else {
                c - e
            };
            if d == 0 {
                18
            } else if d <= 5 {
                12
            } else if d <= 10 {
                6
            } else {
                0
            }
        },
        _ => 0,
    }
}

/// The number of candidate genres whose comparison form is one of the expected genre tags.
pub open spec fn genre_hits(expected: Seq<Seq<char>>, genres: Seq<TmdbGenre>) -> nat
    decreases genres.len(),
{
    if genres.len() == 0 {
        0
    } else {
        genre_hits(expected, genres.drop_last()) + if expected.contains(comparison_text(genres.last().name@)) {
            1nat
        } else {
            0nat
        }
    }
}

/// Points for genres: 8 per matching candidate genre, at most 16.
pub open spec fn genre_points(expected: Seq<String>, genres: Seq<TmdbGenre>) -> int {
    if expected.len() == 0 || genres.len() == 0 {
        0
    } else {
        let hits = genre_hits(string_views(expected), genres);
        if hits * 8 >= 16 {
            16
        } else {
            (hits * 8) as int
        }
    }
}

fn contains_string(v: &Vec<String>, t: &[char]) -> (r: bool)
    ensures
        r == string_views(v@).contains(t@),
{
    let mut i: usize = 0;
    while i < v.len()
        invariant
            i <= v@.len(),
            forall|j: int| 0 <= j < i ==> string_views(v@)[j] != t@,
        decreases v.len() - i,
    {
        if chars_eq(chars_of(v[i].as_str()).as_slice(), t) {
            assert(string_views(v@)[i as int] == t@);
            return true;
        }
        i = i + 1;
    }
    false
}

pub fn genre_score(expected_genres: &Vec<String>, candidate_genres: &Vec<TmdbGenre>) -> (r: i32)
    ensures
        r == genre_points(expected_genres@, candidate_genres@),
{
    if expected_genres.len() == 0 || candidate_genres.len() == 0 {
        return 0;
    }
    let mut hits: usize = 0;
    let mut i: usize = 0;
    while i < candidate_genres.len()
        invariant
            i <= candidate_genres@.len(),
            hits == genre_hits(string_views(expected_genres@), candidate_genres@.subrange(0, i as int)),
            hits <= i,
        decreases candidate_genres.len() - i,
    {
        assert(candidate_genres@.subrange(0, i + 1).drop_last() =~= candidate_genres@.subrange(0, i as int));
        let name = normalize_for_comparison_chars(chars_of(candidate_genres[i].name.as_str()).as_slice());
        if contains_string(expected_genres, name.as_slice()) {
            hits = hits + 1;
        }
        i = i + 1;
    }
    assert(candidate_genres@.subrange(0, candidate_genres@.len() as int) =~= candidate_genres@);
    if hits >= 2 {
        16
    } else {
        (hits as i32) * 8
    }
}

/// `a` and `b` are equal when ASCII letters are compared without case
/// (`str::eq_ignore_ascii_case`).
pub open spec fn eq_ignore_case(a: Seq<char>, b: Seq<char>) -> bool {
    lower_seq(a) == lower_seq(b)
}

fn eq_ignore_ascii_case(a: &[char], b: &[char]) -> (r: bool)
    ensures
        r == eq_ignore_case(a@, b@),
{
    let la = to_ascii_lowercase(a);
    let lb = to_ascii_lowercase(b);
    chars_eq(la.as_slice(), lb.as_slice())
}

/// A production country matches the expected country by its code (case aside) or by its
/// name in comparison form.
pub open spec fn country_matches(expected: Seq<char>, country: TmdbProductionCountry) -> bool {
    (country.iso_3166_1 matches Some(code) && eq_ignore_case(code@, upper_seq(trim_seq(expected))))
        || (country.name matches Some(name) && comparison_text(name@) == comparison_text(expected))
}

/// Points for the production country: 10 when one of the candidate's countries matches.
pub open spec fn country_points(expected: Option<String>, countries: Seq<TmdbProductionCountry>) -> int {
    match expected {
        Some(e) => if exists|i: int| 0 <= i < countries.len() && country_matches(e@, #[trigger] countries[i]) {
            10
        } else {
            0
        },
        None => 0,
    }
}

pub fn country_score(expected_country: &Option<String>, candidate_countries: &Vec<TmdbProductionCountry>) -> (r: i32)
    ensures
        r == country_points(*expected_country, candidate_countries@),
{
    let expected = match expected_country {
        Some(e) => e,
        None => return 0,
    };
    let normalized_expected = normalize_for_comparison_chars(chars_of(expected.as_str()).as_slice());
    let uppercase_expected = to_ascii_uppercase(trim(chars_of(expected.as_str()).as_slice()).as_slice());
    let mut i: usize = 0;
    while i < candidate_countries.len()
        invariant
            i <= candidate_countries@.len(),
            *expected_country == Some(*expected),
            normalized_expected@ == comparison_text(expected@),
            uppercase_expected@ == upper_seq(trim_seq(expected@)),
            forall|j: int| 0 <= j < i ==> !country_matches(expected@, #[trigger] candidate_countries@[j]),
        decreases candidate_countries.len() - i,
    {
        let country = &candidate_countries[i];
        let code_matches = match &country.iso_3166_1 {
            Some(code) => eq_ignore_ascii_case(chars_of(code.as_str()).as_slice(), uppercase_expected.as_slice()),
            None => false,
        };
        if code_matches {
            assert(country_matches(expected@, candidate_countries@[i as int]));
            return 10;
        }
        let name_matches = match &country.name {
            Some(name) => chars_eq(normalize_for_comparison_chars(chars_of(name.as_str()).as_slice()).as_slice(), normalized_expected.as_slice()),
            None => false,
        };
        if name_matches {
            assert(country_matches(expected@, candidate_countries@[i as int]));
            return 10;
        }
        i = i + 1;
    }
    0
}

/// The comparison forms of the names of the crew members credited as director.
pub open spec fn director_names(crew: Seq<crate::tmdb::TmdbCrewMember>) -> Seq<Seq<char>>
    decreases crew.len(),
{
    if crew.len() == 0 {
        Seq::empty()
    } else {
        let pre = director_names(crew.drop_last());
        if crew.last().job matches Some(job) && eq_ignore_case(job@, "Director"@) {
            pre.push(comparison_text(crew.last().name@))
        } else {
            pre
        }
    }
}

/// The comparison forms of the names of the cast.
pub open spec fn cast_names(cast: Seq<crate::tmdb::TmdbCastMember>) -> Seq<Seq<char>> {
    cast.map_values(|m: crate::tmdb::TmdbCastMember| comparison_text(m.name@))
}

/// The number of expected people whose comparison form is among `actual`.
pub open spec fn people_hits(expected: Seq<String>, actual: Seq<Seq<char>>) -> nat
    decreases expected.len(),
{
    if expected.len() == 0 {
        0
    } else {
        people_hits(expected.drop_last(), actual) + if actual.contains(comparison_text(expected.last()@)) {
            1nat
        } else {
            0nat
        }
    }
}

fn count_people_hits(expected: &Vec<String>, actual: &Vec<Vec<char>>) -> (r: usize)
    ensures
        r == people_hits(expected@, views_of(actual@)),
{
    let mut hits: usize = 0;
    let mut i: usize = 0;
    while i < expected.len()
        invariant
            i <= expected@.len(),
            hits == people_hits(expected@.subrange(0, i as int), views_of(actual@)),
            hits <= i,
        decreases expected.len() - i,
    {
        assert(expected@.subrange(0, i + 1).drop_last() =~= expected@.subrange(0, i as int));
        let n = normalize_for_comparison_chars(chars_of(expected[i].as_str()).as_slice());
        if contains_word(actual, n.as_slice()) {
            hits = hits + 1;
        }
        i = i + 1;
    }
    assert(expected@.subrange(0, expected@.len() as int) =~= expected@);
    hits
}

pub open spec fn credited_directors(credits: Option<TmdbCredits>) -> Seq<Seq<char>> {
    match credits {
        Some(c) => director_names(c.crew@),
        None => Seq::empty(),
    }
}

pub open spec fn credited_cast(credits: Option<TmdbCredits>) -> Seq<Seq<char>> {
    match credits {
        Some(c) => cast_names(c.cast@),
        None => Seq::empty(),
    }
}

/// Points for directors named on the movie page: 14 for one credited director, 18 for more.
pub open spec fn director_points(expected: Option<Seq<String>>, credits: Option<TmdbCredits>) -> int {
    match expected {
        Some(e) => {
            let actual = credited_directors(credits);
            if actual.len() == 0 {
                0
            } else {
                let hits = people_hits(e, actual);
                if hits == 0 {
                    0
                } else if hits == 1 {
                    14
                } else {
                    18
                }
            }
        },
        None => 0,
    }
}

/// Points for cast members named on the movie page: 10 for one in the credits, 14 for more.
pub open spec fn cast_points(expected: Option<Seq<String>>, credits: Option<TmdbCredits>) -> int {
    match expected {
        Some(e) => {
            let actual = credited_cast(credits);
            if actual.len() == 0 {
                0
            } else {
                let hits = people_hits(e, actual);
                if hits == 0 {
                    0
                } else if hits == 1 {
                    10
                } else {
                    14
                }
            }
        },
        None => 0,
    }
}

fn directors_of(credits: &Option<TmdbCredits>) -> (r: Vec<Vec<char>>)
    ensures
        views_of(r@) == credited_directors(*credits),
{
    let mut out: Vec<Vec<char>> = Vec::new();
    match credits {
        Some(c) => {
            let crew = &c.crew;
            let mut i: usize = 0;
            while i < crew.len()
                invariant
                    i <= crew@.len(),
                    crew == &c.crew,
                    views_of(out@) == director_names(crew@.subrange(0, i as int)),
                decreases crew.len() - i,
            {
                assert(crew@.subrange(0, i + 1).drop_last() =~= crew@.subrange(0, i as int));
                let is_director = match &crew[i].job {
                    Some(job) => eq_ignore_ascii_case(chars_of(job.as_str()).as_slice(), chars_of("Director").as_slice()),
                    None => false,
                };
                if is_director {
                    let ghost before = views_of(out@);
                    out.push(normalize_for_comparison_chars(chars_of(crew[i].name.as_str()).as_slice()));
                    assert(views_of(out@) =~= before.push(views_of(out@).last()));
                }
                i = i + 1;
            }
            assert(crew@.subrange(0, crew@.len() as int) =~= crew@);
        },
        None => {
            assert(views_of(out@) =~= Seq::<Seq<char>>::empty());
        },
    }
    out
}

fn cast_of(credits: &Option<TmdbCredits>) -> (r: Vec<Vec<char>>)
    ensures
        views_of(r@) == credited_cast(*credits),
{
    let mut out: Vec<Vec<char>> = Vec::new();
    match credits {
        Some(c) => {
            let cast = &c.cast;
            let mut i: usize = 0;
            while i < cast.len()
                invariant
                    i <= cast@.len(),
                    cast == &c.cast,
                    views_of(out@) == cast_names(cast@.subrange(0, i as int)),
                decreases cast.len() - i,
            {
                let ghost before = views_of(out@);
                let n = normalize_for_comparison_chars(chars_of(cast[i].name.as_str()).as_slice());
                out.push(n);
                assert(views_of(out@) =~= before.push(n@));
                assert(cast_names(cast@.subrange(0, i + 1)) =~= cast_names(cast@.subrange(0, i as int)).push(comparison_text(cast@[i as int].name@)));
                i = i + 1;
            }
            assert(cast@.subrange(0, cast@.len() as int) =~= cast@);
        },
        None => {
            assert(views_of(out@) =~= Seq::<Seq<char>>::empty());
        },
    }
    out
}

pub fn director_score(expected_directors: Option<&Vec<String>>, credits: &Option<TmdbCredits>) -> (r: i32)
    ensures
        r == director_points(match expected_directors {
            Some(e) => Some(e@),
            None => None,
        }, *credits),
{
    let expected = match expected_directors {
        Some(e) => e,
        None => return 0,
    };
    let actual = directors_of(credits);
    if actual.len() == 0 {
        return 0;
    }
    let hits = count_people_hits(expected, &actual);
    if hits == 0 {
        0
    } else if hits == 1 {
        14
    } else {
        18
    }
}

pub fn cast_score(expected_cast: Option<&Vec<String>>, credits: &Option<TmdbCredits>) -> (r: i32)
    ensures
        r == cast_points(match expected_cast {
            Some(e) => Some(e@),
            None => None,
        }, *credits),
{
    let expected = match expected_cast {
        Some(e) => e,
        None => return 0,
    };
    let actual = cast_of(credits);
    if actual.len() == 0 {
        return 0;
    }
    let hits = count_people_hits(expected, &actual);
    if hits == 0 {
        0
    } else if hits == 1 {
        10
    } else {
        14
    }
}

/// Points for popularity: one per thousand votes, at most 8.
pub open spec fn vote_points(vote_count: Option<u32>) -> int {
    let n = match vote_count {
        Some(c) => c as int,
        None => 0,
    };
    if n / 1000 >= 8 {
        8
    } else {
        n / 1000
    }
}

pub fn vote_score(vote_count: Option<u32>) -> (r: i32)
    ensures
        r == vote_points(vote_count),
{
    let n: u32 = match vote_count {
        Some(c) => c,
        None => 0,
    };
    let k = n / 1000;
    if k >= 8 {
        8
    } else {
        k as i32
    }
}

/// In a ranking, the candidate with score `s1`, `v1` votes and position `i1` in the search
/// results comes before the one with `s2`, `v2` and `i2`: higher score first, then more
/// votes, then the earlier result.
pub open spec fn ranks_before(s1: int, v1: int, i1: int, s2: int, v2: int, i2: int) -> bool {
    s1 > s2 || (s1 == s2 && v1 > v2) || (s1 == s2 && v1 == v2 && i1 < i2)
}

/// `order` lists every candidate position once, best first.
pub open spec fn is_ranking(order: Seq<int>, scores: Seq<int>, votes: Seq<int>) -> bool {
    &&& votes.len() == scores.len()
    &&& order.len() == scores.len()
    &&& forall|k: int| 0 <= k < order.len() ==> 0 <= #[trigger] order[k] < scores.len()
    &&& forall|j: int| 0 <= j < scores.len() ==> #[trigger] order.contains(j)
    &&& forall|k: int, l: int|
        0 <= k < l < order.len() ==> ranks_before(
            scores[order[k]],
            votes[order[k]],
            order[k],
            scores[order[l]],
            votes[order[l]],
            order[l],
        )
}

/// The ranking of candidates with the given scores and vote counts.
pub open spec fn ranking_of(scores: Seq<int>, votes: Seq<int>) -> Seq<int> {
    choose|o: Seq<int>| is_ranking(o, scores, votes)
}

proof fn lemma_ranking_drop_first(o: Seq<int>, scores: Seq<int>, votes: Seq<int>, k: int)
    requires
        0 <= k < o.len(),
        forall|a: int, b: int|
            0 <= a < b < o.len() ==> ranks_before(scores[o[a]], votes[o[a]], o[a], scores[o[b]], votes[o[b]], o[b]),
    ensures
        forall|m: int| 0 <= m < o.len() && m != k ==> o[m] != o[k],
{
    assert forall|m: int| 0 <= m < o.len() && m != k implies o[m] != o[k] by {
        if m < k {
            assert(ranks_before(scores[o[m]], votes[o[m]], o[m], scores[o[k]], votes[o[k]], o[k]));
        } else {
            assert(ranks_before(scores[o[k]], votes[o[k]], o[k], scores[o[m]], votes[o[m]], o[m]));
        }
    }
}

proof fn lemma_sorted_same_elements_equal(o1: Seq<int>, o2: Seq<int>, scores: Seq<int>, votes: Seq<int>)
    requires
        o1.len() == o2.len(),
        forall|x: int| o1.contains(x) <==> o2.contains(x),
        forall|a: int, b: int|
            0 <= a < b < o1.len() ==> ranks_before(scores[o1[a]], votes[o1[a]], o1[a], scores[o1[b]], votes[o1[b]], o1[b]),
        forall|a: int, b: int|
            0 <= a < b < o2.len() ==> ranks_before(scores[o2[a]], votes[o2[a]], o2[a], scores[o2[b]], votes[o2[b]], o2[b]),
    ensures
        o1 == o2,
    decreases o1.len(),
{
    if o1.len() > 0 {
        assert(o2.contains(o1[0]));
        let j = choose|j: int| 0 <= j < o2.len() && o2[j] == o1[0];
        assert(o1.contains(o2[0]));
        let k = choose|k: int| 0 <= k < o1.len() && o1[k] == o2[0];
        if j > 0 {
            assert(ranks_before(scores[o2[0]], votes[o2[0]], o2[0], scores[o2[j]], votes[o2[j]], o2[j]));
            if k > 0 {
                assert(ranks_before(scores[o1[0]], votes[o1[0]], o1[0], scores[o1[k]], votes[o1[k]], o1[k]));
            }
            lemma_ranking_drop_first(o2, scores, votes, 0);
            assert(false);
        }
        assert(o1[0] == o2[0]);
        let r1 = o1.drop_first();
        let r2 = o2.drop_first();
        lemma_ranking_drop_first(o1, scores, votes, 0);
        lemma_ranking_drop_first(o2, scores, votes, 0);
        assert forall|x: int| r1.contains(x) <==> r2.contains(x) by {
            if r1.contains(x) {
                let a = choose|a: int| 0 <= a < r1.len() && r1[a] == x;
                assert(o1[a + 1] == x);
                assert(o2.contains(x));
                let b = choose|b: int| 0 <= b < o2.len() && o2[b] == x;
                assert(b != 0);
                assert(r2[b - 1] == x);
            }
            if r2.contains(x) {
                let a = choose|a: int| 0 <= a < r2.len() && r2[a] == x;
                assert(o2[a + 1] == x);
                assert(o1.contains(x));
                let b = choose|b: int| 0 <= b < o1.len() && o1[b] == x;
                assert(b != 0);
                assert(r1[b - 1] == x);
            }
        }
        assert forall|a: int, b: int| 0 <= a < b < r1.len() implies ranks_before(scores[r1[a]], votes[r1[a]], r1[a], scores[r1[b]], votes[r1[b]], r1[b]) by {
            assert(r1[a] == o1[a + 1] && r1[b] == o1[b + 1]);
        }
        assert forall|a: int, b: int| 0 <= a < b < r2.len() implies ranks_before(scores[r2[a]], votes[r2[a]], r2[a], scores[r2[b]], votes[r2[b]], r2[b]) by {
            assert(r2[a] == o2[a + 1] && r2[b] == o2[b + 1]);
        }
        lemma_sorted_same_elements_equal(r1, r2, scores, votes);
        assert(o1 =~= seq![o1[0]] + r1);
        assert(o2 =~= seq![o2[0]] + r2);
    }
}

/// The ranking of candidates is fully determined by their scores, vote counts and order:
/// two rankings of the same candidates are the same.
pub proof fn lemma_ranking_unique(o1: Seq<int>, o2: Seq<int>, scores: Seq<int>, votes: Seq<int>)
    requires
        is_ranking(o1, scores, votes),
        is_ranking(o2, scores, votes),
    ensures
        o1 == o2,
{
    assert forall|x: int| o1.contains(x) <==> o2.contains(x) by {
        if o1.contains(x) {
            let a = choose|a: int| 0 <= a < o1.len() && o1[a] == x;
            assert(0 <= o1[a] < scores.len());
        }
        if o2.contains(x) {
            let a = choose|a: int| 0 <= a < o2.len() && o2[a] == x;
            assert(0 <= o2[a] < scores.len());
        }
    }
    lemma_sorted_same_elements_equal(o1, o2, scores, votes);
}

pub open spec fn usize_ints(v: Seq<usize>) -> Seq<int> {
    v.map_values(|x: usize| x as int)
}

pub open spec fn i32_ints(v: Seq<i32>) -> Seq<int> {
    v.map_values(|x: i32| x as int)
}

pub open spec fn u32_ints(v: Seq<u32>) -> Seq<int> {
    v.map_values(|x: u32| x as int)
}

/// The positions of candidates with the given scores and vote counts, best first.
pub fn rank_order(scores: &Vec<i32>, votes: &Vec<u32>) -> (r: Vec<usize>)
    requires
        scores@.len() == votes@.len(),
    ensures
        is_ranking(usize_ints(r@), i32_ints(scores@), u32_ints(votes@)),
        usize_ints(r@) == ranking_of(i32_ints(scores@), u32_ints(votes@)),
{
    let ghost sc = i32_ints(scores@);
    let ghost vo = u32_ints(votes@);
    let mut out: Vec<usize> = Vec::new();
    let mut i: usize = 0;
    while i < scores.len()
        invariant
            i <= scores@.len(),
            scores@.len() == votes@.len(),
            sc == i32_ints(scores@),
            vo == u32_ints(votes@),
            out@.len() == i,
            forall|k: int| 0 <= k < out@.len() ==> 0 <= #[trigger] out@[k] < i,
            forall|j: int| 0 <= j < i ==> #[trigger] usize_ints(out@).contains(j),
            forall|k: int, l: int|
                0 <= k < l < out@.len() ==> ranks_before(
                    sc[out@[k] as int],
                    vo[out@[k] as int],
                    out@[k] as int,
                    sc[out@[l] as int],
                    vo[out@[l] as int],
                    out@[l] as int,
                ),
        decreases scores.len() - i,
    {
        let mut p: usize = 0;
        while p < out.len() && !(scores[i] > scores[out[p]] || (scores[i] == scores[out[p]] && votes[i] > votes[out[p]]))
            invariant
                p <= out@.len(),
                i < scores@.len(),
                scores@.len() == votes@.len(),
                sc == i32_ints(scores@),
                vo == u32_ints(votes@),
                forall|k: int| 0 <= k < out@.len() ==> 0 <= #[trigger] out@[k] < i,
                forall|k: int| 0 <= k < p ==> ranks_before(
                    sc[out@[k] as int],
                    vo[out@[k] as int],
                    out@[k] as int,
                    sc[i as int],
                    vo[i as int],
                    i as int,
                ),
            decreases out.len() - p,
        {
            assert(out@[p as int] < i);
            p = p + 1;
        }
        let ghost before = out@;
        proof {
            if p < out@.len() {
                assert(out@[p as int] < i);
                assert(ranks_before(sc[i as int], vo[i as int], i as int, sc[out@[p as int] as int], vo[out@[p as int] as int], out@[p as int] as int));
            }
        }
        out.insert(p, i);
        proof {
            assert(out@ == before.insert(p as int, i));
            assert forall|k: int| 0 <= k < out@.len() implies 0 <= #[trigger] out@[k] < i + 1 by {
                if k < p {
                    assert(out@[k] == before[k]);
                } else if k > p {
                    assert(out@[k] == before[k - 1]);
                }
            }
            assert forall|j: int| 0 <= j < i + 1 implies #[trigger] usize_ints(out@).contains(j) by {
                if j == i {
                    assert(usize_ints(out@)[p as int] == j);
                } else {
                    assert(usize_ints(before).contains(j));
                    let k = choose|k: int| 0 <= k < usize_ints(before).len() && usize_ints(before)[k] == j;
                    if k < p {
                        assert(usize_ints(out@)[k] == j);
                    } else {
                        assert(usize_ints(out@)[k + 1] == j);
                    }
                }
            }
            assert forall|k: int, l: int| 0 <= k < l < out@.len() implies ranks_before(
                sc[out@[k] as int],
                vo[out@[k] as int],
                out@[k] as int,
                sc[out@[l] as int],
                vo[out@[l] as int],
                out@[l] as int,
            ) by {
                if l < p {
                    assert(out@[k] == before[k] && out@[l] == before[l]);
                } else if l == p {
                    assert(out@[k] == before[k]);
                } else if k < p {
                    assert(out@[k] == before[k] && out@[l] == before[l - 1]);
                    assert(before[k] < i && before[l - 1] < i);
                    if p < before.len() {
                        assert(ranks_before(sc[i as int], vo[i as int], i as int, sc[before[p as int] as int], vo[before[p as int] as int], before[p as int] as int));
                    }
                } else if k == p {
                    assert(out@[l] == before[l - 1]);
                    assert(before[l - 1] < i);
                    assert(before[p as int] < i);
                    if l - 1 > p {
                        assert(ranks_before(sc[before[p as int] as int], vo[before[p as int] as int], before[p as int] as int, sc[before[l - 1] as int], vo[before[l - 1] as int], before[l - 1] as int));
                    }
                } else {
                    assert(out@[k] == before[k - 1] && out@[l] == before[l - 1]);
                }
            }
        }
        i = i + 1;
    }
    proof {
        assert(is_ranking(usize_ints(out@), sc, vo));
        lemma_ranking_unique(usize_ints(out@), ranking_of(sc, vo), sc, vo);
    }
    out
}

/// The country named on the movie page, if any.
pub open spec fn fallback_country(fallback: Option<MoviePageFallbackDetails>) -> Option<String> {
    match fallback {
        Some(f) => f.country,
        None => None,
    }
}

pub open spec fn fallback_directors(fallback: Option<MoviePageFallbackDetails>) -> Option<Seq<String>> {
    match fallback {
        Some(f) => Some(f.directors@),
        None => None,
    }
}

pub open spec fn fallback_cast(fallback: Option<MoviePageFallbackDetails>) -> Option<Seq<String>> {
    match fallback {
        Some(f) => Some(f.cast@),
        None => None,
    }
}

pub open spec fn opt_ref<T>(v: Option<&T>) -> Option<T> {
    match v {
        Some(x) => Some(*x),
        None => None,
    }
}

/// The score of a search result: title, release year, original language and popularity.
pub open spec fn preliminary_score_spec(metadata: MovieLookupMetadata, variants: Seq<Seq<char>>, c: TmdbSearchResult) -> int {
    title_score_spec(variants, c.title, c.original_title) + year_points(search_year_spec(metadata), c.release_date)
        + language_points(metadata.original_language_code, c.original_language) + vote_points(c.vote_count)
}

pub fn score_preliminary_candidate(
    metadata: &MovieLookupMetadata,
    variants: &Vec<Vec<char>>,
    candidate: &TmdbSearchResult,
) -> (r: i32)
    requires
        variants_normal(views_of(variants@)),
    ensures
        r == preliminary_score_spec(*metadata, views_of(variants@), *candidate),
        0 <= r <= 140,
{
    title_score(variants, &candidate.title, &candidate.original_title) + year_score(resolve_search_year(metadata), &candidate.release_date)
        + language_score(&metadata.original_language_code, &candidate.original_language) + vote_score(candidate.vote_count)
}

/// The score of a movie's details: everything of the preliminary score, and also running
/// time, genres, country, directors and cast, plus a tenth of the preliminary score.
pub open spec fn detailed_score_spec(
    metadata: MovieLookupMetadata,
    fallback: Option<MoviePageFallbackDetails>,
    variants: Seq<Seq<char>>,
    d: TmdbMovieDetailsResponse,
    preliminary: int,
) -> int {
    title_score_spec(variants, d.title, d.original_title) + year_points(search_year_spec(metadata), d.release_date)
        + language_points(metadata.original_language_code, d.original_language) + runtime_points(
        metadata.runtime_minutes,
        d.runtime,
    ) + genre_points(metadata.genre_tags@, d.genres@) + country_points(fallback_country(fallback), d.production_countries@)
        + director_points(fallback_directors(fallback), d.credits) + cast_points(fallback_cast(fallback), d.credits)
        + preliminary / 10 + vote_points(d.vote_count)
}

fn fallback_country_of(fallback_details: Option<&MoviePageFallbackDetails>) -> (r: &Option<String>)
    ensures
        *r == fallback_country(opt_ref(fallback_details)),
{
    match fallback_details {
        Some(f) => &f.country,
        None => &NO_TEXT,
    }
}

const NO_TEXT: Option<String> = None;

pub fn score_detailed_candidate(
    metadata: &MovieLookupMetadata,
    fallback_details: Option<&MoviePageFallbackDetails>,
    variants: &Vec<Vec<char>>,
    candidate: &TmdbMovieDetailsResponse,
    preliminary_score: i32,
) -> (r: i32)
    requires
        variants_normal(views_of(variants@)),
        0 <= preliminary_score <= 1000,
    ensures
        r == detailed_score_spec(*metadata, opt_ref(fallback_details), views_of(variants@), *candidate, preliminary_score as int),
        0 <= r <= 330,
{
    let directors = match fallback_details {
        Some(f) => Some(&f.directors),
        None => None,
    };
    let cast = match fallback_details {
        Some(f) => Some(&f.cast),
        None => None,
    };
    title_score(variants, &candidate.title, &candidate.original_title) + year_score(resolve_search_year(metadata), &candidate.release_date)
        + language_score(&metadata.original_language_code, &candidate.original_language) + runtime_score(
        metadata.runtime_minutes,
        candidate.runtime,
    ) + genre_score(&metadata.genre_tags, &candidate.genres) + country_score(fallback_country_of(fallback_details), &candidate.production_countries)
        + director_score(directors, &candidate.credits) + cast_score(cast, &candidate.credits) + preliminary_score / 10
        + vote_score(candidate.vote_count)
}

/// A search result's position among the candidates, and its score.
#[derive(Debug, Clone, Copy, PartialEq, Eq)]
pub struct RankedSearchCandidate {
    pub index: usize,
    pub score: i32,
}

/// A movie's details fetched for a ranked search result, with that result's score.
#[derive(Debug, Clone, PartialEq, Eq)]
pub struct TmdbDetailedCandidate {
    pub details: TmdbMovieDetailsResponse,
    pub preliminary_score: i32,
}

/// A detailed candidate's position, and its score.
#[derive(Debug, Clone, Copy, PartialEq, Eq)]
pub struct RankedDetailedCandidate {
    pub index: usize,
    pub score: i32,
}

pub open spec fn votes_of(v: Option<u32>) -> int {
    match v {
        Some(c) => c as int,
        None => 0,
    }
}

/// The scores of all search results.
pub open spec fn search_scores(movie: TmdbLookupMovie, fallback: Option<MoviePageFallbackDetails>, candidates: Seq<TmdbSearchResult>) -> Seq<int> {
    Seq::new(candidates.len(), |i: int| preliminary_score_spec(movie.lookup_metadata, title_variants_spec(movie, fallback), candidates[i]))
}

pub open spec fn search_votes(candidates: Seq<TmdbSearchResult>) -> Seq<int> {
    Seq::new(candidates.len(), |i: int| votes_of(candidates[i].vote_count))
}

pub open spec fn search_ranking_indices(r: Seq<RankedSearchCandidate>) -> Seq<int> {
    r.map_values(|c: RankedSearchCandidate| c.index as int)
}

/// The search results ranked: each with its score, best first.
pub open spec fn ranked_search_spec(
    ranked: Seq<RankedSearchCandidate>,
    movie: TmdbLookupMovie,
    fallback: Option<MoviePageFallbackDetails>,
    candidates: Seq<TmdbSearchResult>,
) -> bool {
    &&& search_ranking_indices(ranked) == ranking_of(search_scores(movie, fallback, candidates), search_votes(candidates))
    &&& forall|k: int| 0 <= k < ranked.len() ==> (#[trigger] ranked[k]).score == search_scores(movie, fallback, candidates)[ranked[k].index as int]
}

pub fn rank_search_candidates(
    movie: &TmdbLookupMovie,
    fallback_details: Option<&MoviePageFallbackDetails>,
    candidates: &Vec<TmdbSearchResult>,
) -> (r: Vec<RankedSearchCandidate>)
    ensures
        ranked_search_spec(r@, *movie, opt_ref(fallback_details), candidates@),
        is_ranking(search_ranking_indices(r@), search_scores(*movie, opt_ref(fallback_details), candidates@), search_votes(candidates@)),
        r@.len() == candidates@.len(),
        forall|k: int| 0 <= k < r@.len() ==> (#[trigger] r@[k]).index < candidates@.len() && 0 <= r@[k].score <= 140,
{
    let variants = build_title_variants(movie, fallback_details);
    let ghost sc = search_scores(*movie, opt_ref(fallback_details), candidates@);
    let mut scores: Vec<i32> = Vec::new();
    let mut votes: Vec<u32> = Vec::new();
    let mut i: usize = 0;
    while i < candidates.len()
        invariant
            i <= candidates@.len(),
            scores@.len() == i,
            votes@.len() == i,
            variants_normal(views_of(variants@)),
            views_of(variants@) == title_variants_spec(*movie, opt_ref(fallback_details)),
            sc == search_scores(*movie, opt_ref(fallback_details), candidates@),
            forall|k: int| 0 <= k < i ==> #[trigger] scores@[k] == sc[k] && 0 <= scores@[k] <= 140,
            forall|k: int| 0 <= k < i ==> #[trigger] votes@[k] == votes_of(candidates@[k].vote_count),
        decreases candidates.len() - i,
    {
        let s = score_preliminary_candidate(&movie.lookup_metadata, &variants, &candidates[i]);
        scores.push(s);
        let v: u32 = match candidates[i].vote_count {
            Some(c) => c,
            None => 0,
        };
        votes.push(v);
        i = i + 1;
    }
    assert(i32_ints(scores@) =~= sc);
    assert(u32_ints(votes@) =~= search_votes(candidates@));
    let order = rank_order(&scores, &votes);
    let mut ranked: Vec<RankedSearchCandidate> = Vec::new();
    let mut k: usize = 0;
    while k < order.len()
        invariant
            k <= order@.len(),
            order@.len() == candidates@.len(),
            scores@.len() == candidates@.len(),
            is_ranking(usize_ints(order@), i32_ints(scores@), u32_ints(votes@)),
            ranked@.len() == k,
            forall|m: int| 0 <= m < k ==> (#[trigger] ranked@[m]).index == order@[m] && ranked@[m].score == scores@[order@[m] as int],
        decreases order.len() - k,
    {
        assert(usize_ints(order@)[k as int] == order@[k as int] as int);
        let idx = order[k];
        ranked.push(RankedSearchCandidate { index: idx, score: scores[idx] });
        k = k + 1;
    }
    assert(search_ranking_indices(ranked@) =~= usize_ints(order@));
    proof {
        assert forall|m: int| 0 <= m < ranked@.len() implies (#[trigger] ranked@[m]).index < candidates@.len() && 0 <= ranked@[m].score <= 140 by {
            assert(usize_ints(order@)[m] == order@[m] as int);
        }
    }
    ranked
}

/// The scores of the detailed candidates.
pub open spec fn detailed_scores(movie: TmdbLookupMovie, fallback: Option<MoviePageFallbackDetails>, detailed: Seq<TmdbDetailedCandidate>) -> Seq<int> {
    Seq::new(detailed.len(), |i: int| detailed_score_spec(movie.lookup_metadata, fallback, title_variants_spec(movie, fallback), detailed[i].details, detailed[i].preliminary_score as int))
}

pub open spec fn detailed_votes(detailed: Seq<TmdbDetailedCandidate>) -> Seq<int> {
    Seq::new(detailed.len(), |i: int| votes_of(detailed[i].details.vote_count))
}

pub open spec fn detailed_ranking_indices(r: Seq<RankedDetailedCandidate>) -> Seq<int> {
    r.map_values(|c: RankedDetailedCandidate| c.index as int)
}

/// The detailed candidates ranked: each with its score, best first.
pub open spec fn ranked_detailed_spec(
    ranked: Seq<RankedDetailedCandidate>,
    movie: TmdbLookupMovie,
    fallback: Option<MoviePageFallbackDetails>,
    detailed: Seq<TmdbDetailedCandidate>,
) -> bool {
    &&& detailed_ranking_indices(ranked) == ranking_of(detailed_scores(movie, fallback, detailed), detailed_votes(detailed))
    &&& forall|k: int| 0 <= k < ranked.len() ==> (#[trigger] ranked[k]).score == detailed_scores(movie, fallback, detailed)[ranked[k].index as int]
}

/// The preliminary scores are those of a ranking: between 0 and 140.
pub open spec fn preliminary_scores_valid(detailed: Seq<TmdbDetailedCandidate>) -> bool {
    forall|i: int| 0 <= i < detailed.len() ==> 0 <= (#[trigger] detailed[i]).preliminary_score <= 140
}

pub fn rank_detailed_candidates(
    movie: &TmdbLookupMovie,
    fallback_details: Option<&MoviePageFallbackDetails>,
    candidates: &Vec<TmdbDetailedCandidate>,
) -> (r: Vec<RankedDetailedCandidate>)
    requires
        preliminary_scores_valid(candidates@),
    ensures
        ranked_detailed_spec(r@, *movie, opt_ref(fallback_details), candidates@),
        is_ranking(detailed_ranking_indices(r@), detailed_scores(*movie, opt_ref(fallback_details), candidates@), detailed_votes(candidates@)),
        r@.len() == candidates@.len(),
        forall|k: int| 0 <= k < r@.len() ==> (#[trigger] r@[k]).index < candidates@.len() && 0 <= r@[k].score <= 330,
{
    let variants = build_title_variants(movie, fallback_details);
    let ghost sc = detailed_scores(*movie, opt_ref(fallback_details), candidates@);
    let mut scores: Vec<i32> = Vec::new();
    let mut votes: Vec<u32> = Vec::new();
    let mut i: usize = 0;
    while i < candidates.len()
        invariant
            i <= candidates@.len(),
            scores@.len() == i,
            votes@.len() == i,
            preliminary_scores_valid(candidates@),
            variants_normal(views_of(variants@)),
            views_of(variants@) == title_variants_spec(*movie, opt_ref(fallback_details)),
            sc == detailed_scores(*movie, opt_ref(fallback_details), candidates@),
            forall|k: int| 0 <= k < i ==> #[trigger] scores@[k] == sc[k] && 0 <= scores@[k] <= 330,
            forall|k: int| 0 <= k < i ==> #[trigger] votes@[k] == votes_of(candidates@[k].details.vote_count),
        decreases candidates.len() - i,
    {
        assert(0 <= candidates@[i as int].preliminary_score <= 140);
        let s = score_detailed_candidate(&movie.lookup_metadata, fallback_details, &variants, &candidates[i].details, candidates[i].preliminary_score);
        scores.push(s);
        let v: u32 = match candidates[i].details.vote_count {
            Some(c) => c,
            None => 0,
        };
        votes.push(v);
        i = i + 1;
    }
    assert(i32_ints(scores@) =~= sc);
    assert(u32_ints(votes@) =~= detailed_votes(candidates@));
    let order = rank_order(&scores, &votes);
    let mut ranked: Vec<RankedDetailedCandidate> = Vec::new();
    let mut k: usize = 0;
    while k < order.len()
        invariant
            k <= order@.len(),
            order@.len() == candidates@.len(),
            scores@.len() == candidates@.len(),
            is_ranking(usize_ints(order@), i32_ints(scores@), u32_ints(votes@)),
            ranked@.len() == k,
            forall|m: int| 0 <= m < k ==> (#[trigger] ranked@[m]).index == order@[m] && ranked@[m].score == scores@[order@[m] as int],
        decreases order.len() - k,
    {
        assert(usize_ints(order@)[k as int] == order@[k as int] as int);
        let idx = order[k];
        ranked.push(RankedDetailedCandidate { index: idx, score: scores[idx] });
        k = k + 1;
    }
    assert(detailed_ranking_indices(ranked@) =~= usize_ints(order@));
    proof {
        assert forall|m: int| 0 <= m < ranked@.len() implies (#[trigger] ranked@[m]).index < candidates@.len() && 0 <= ranked@[m].score <= 330 by {
            assert(usize_ints(order@)[m] == order@[m] as int);
        }
    }
    ranked
}

/// The release year is more than two years away from the expected one.
pub open spec fn year_conflict(expected: Option<i32>, release_date: Option<String>) -> bool {
    match (expected, release_year_of(release_date)) {
        (Some(e), Some(c)) => abs_diff(c as int, e as int) > 2,
        _ => false,
    }
}

/// Both languages are known and their codes differ.
pub open spec fn language_conflict(expected: Option<String>, candidate: Option<String>) -> bool {
    match language_pair(expected, candidate) {
        Some((e, c)) => e != c,
        None => false,
    }
}

/// Both running times are known and differ by more than 25 minutes.
pub open spec fn runtime_conflict(expected: Option<u16>, candidate: Option<u16>) -> bool {
    match (expected, candidate) {
        (Some(e), Some(c)) => abs_diff(e as int, c as int) > 25,
        _ => false,
    }
}

fn has_year_conflict(expected_year: Option<i32>, release_date: &Option<String>) -> (r: bool)
    ensures
        r == year_conflict(expected_year, *release_date),
{
    match (expected_year, release_year(release_date)) {
        (Some(e), Some(c)) => year_distance(e, c) > 2,
        _ => false,
    }
}

fn has_language_conflict(expected_language: &Option<String>, candidate_language: &Option<String>) -> (r: bool)
    ensures
        r == language_conflict(*expected_language, *candidate_language),
{
    match (expected_language, candidate_language) {
        (Some(e), Some(c)) => {
            let ec = normalize_language_code(e.as_str());
            let cc = normalize_language_code(c.as_str());
            !chars_eq(ec.as_slice(), cc.as_slice())
        },
        _ => false,
    }
}

fn has_runtime_conflict(expected_runtime: Option<u16>, candidate_runtime: Option<u16>) -> (r: bool)
    ensures
        r == runtime_conflict(expected_runtime, candidate_runtime),
{
    match (expected_runtime, candidate_runtime) {
        (Some(e), Some(c)) => {
            let d = if e >= c {
                e - c
            } else {
                c - e
            };
            d > 25
        },
        _ => false,
    }
}

pub open spec fn search_conflict(metadata: MovieLookupMetadata, c: TmdbSearchResult) -> bool {
    year_conflict(search_year_spec(metadata), c.release_date) || language_conflict(metadata.original_language_code, c.original_language)
}

pub open spec fn detailed_conflict(metadata: MovieLookupMetadata, d: TmdbMovieDetailsResponse) -> bool {
    year_conflict(search_year_spec(metadata), d.release_date) || language_conflict(metadata.original_language_code, d.original_language)
        || runtime_conflict(metadata.runtime_minutes, d.runtime)
}

/// What the metadata says for a movie's details, title aside.
pub open spec fn metadata_support(metadata: MovieLookupMetadata, fallback: Option<MoviePageFallbackDetails>, d: TmdbMovieDetailsResponse) -> int {
    year_points(search_year_spec(metadata), d.release_date) + language_points(metadata.original_language_code, d.original_language)
        + runtime_points(metadata.runtime_minutes, d.runtime) + genre_points(metadata.genre_tags@, d.genres@)
        + country_points(fallback_country(fallback), d.production_countries@) + director_points(fallback_directors(fallback), d.credits)
        + cast_points(fallback_cast(fallback), d.credits)
}

fn detailed_metadata_support(
    metadata: &MovieLookupMetadata,
    fallback_details: Option<&MoviePageFallbackDetails>,
    candidate: &TmdbMovieDetailsResponse,
) -> (r: i32)
    ensures
        r == metadata_support(*metadata, opt_ref(fallback_details), *candidate),
{
    let directors = match fallback_details {
        Some(f) => Some(&f.directors),
        None => None,
    };
    let cast = match fallback_details {
        Some(f) => Some(&f.cast),
        None => None,
    };
    year_score(resolve_search_year(metadata), &candidate.release_date) + language_score(&metadata.original_language_code, &candidate.original_language)
        + runtime_score(metadata.runtime_minutes, candidate.runtime) + genre_score(&metadata.genre_tags, &candidate.genres)
        + country_score(fallback_country_of(fallback_details), &candidate.production_countries)
        + director_score(directors, &candidate.credits) + cast_score(cast, &candidate.credits)
}

/// The distance of the best score from the second best: zero with no candidates, the
/// largest `i32` with one.
pub open spec fn gap_of(v: Seq<int>) -> int {
    if v.len() == 0 {
        0
    } else if v.len() == 1 {
        i32::MAX as int
    } else {
        v[0] - v[1]
    }
}

/// The scores in ranking order.
pub open spec fn ranked_values(order: Seq<int>, scores: Seq<int>) -> Seq<int> {
    order.map_values(|i: int| scores[i])
}

pub open spec fn search_ranked_scores(r: Seq<RankedSearchCandidate>) -> Seq<int> {
    r.map_values(|c: RankedSearchCandidate| c.score as int)
}

pub open spec fn detailed_ranked_scores(r: Seq<RankedDetailedCandidate>) -> Seq<int> {
    r.map_values(|c: RankedDetailedCandidate| c.score as int)
}

/// Scores that descend: each score is at least the next one.
pub open spec fn descending(v: Seq<int>) -> bool {
    forall|k: int, l: int| 0 <= k < l < v.len() ==> v[k] >= v[l]
}

/// The gap of a search ranking.
pub fn search_score_gap(ranked: &Vec<RankedSearchCandidate>) -> (r: i32)
    requires
        descending(search_ranked_scores(ranked@)),
        forall|k: int| 0 <= k < ranked@.len() ==> 0 <= (#[trigger] ranked@[k]).score <= 1000,
    ensures
        r == gap_of(search_ranked_scores(ranked@)),
{
    if ranked.len() == 0 {
        0
    } else if ranked.len() == 1 {
        i32::MAX
    } else {
        assert(search_ranked_scores(ranked@)[0] >= search_ranked_scores(ranked@)[1]);
        ranked[0].score - ranked[1].score
    }
}

/// The gap of a detailed ranking.
pub fn detailed_score_gap(ranked: &Vec<RankedDetailedCandidate>) -> (r: i32)
    requires
        descending(detailed_ranked_scores(ranked@)),
        forall|k: int| 0 <= k < ranked@.len() ==> 0 <= (#[trigger] ranked@[k]).score <= 1000,
    ensures
        r == gap_of(detailed_ranked_scores(ranked@)),
{
    if ranked.len() == 0 {
        0
    } else if ranked.len() == 1 {
        i32::MAX
    } else {
        assert(detailed_ranked_scores(ranked@)[0] >= detailed_ranked_scores(ranked@)[1]);
        ranked[0].score - ranked[1].score
    }
}

/// The search ranking is too weak to trust: no candidate, a best score under 120, or a lead
/// under 12 points.
pub open spec fn weak_ranking(v: Seq<int>) -> bool {
    v.len() == 0 || v[0] < 120 || gap_of(v) < 12
}

pub fn is_preliminary_weak(ranked: &Vec<RankedSearchCandidate>) -> (r: bool)
    requires
        descending(search_ranked_scores(ranked@)),
        forall|k: int| 0 <= k < ranked@.len() ==> 0 <= (#[trigger] ranked@[k]).score <= 1000,
    ensures
        r == weak_ranking(search_ranked_scores(ranked@)),
{
    ranked.len() == 0 || ranked[0].score < 120 || search_score_gap(ranked) < 12
}

/// A single search result whose title matches well and whose year and language do not
/// contradict the metadata.
pub open spec fn relaxed_preliminary(
    movie: TmdbLookupMovie,
    fallback: Option<MoviePageFallbackDetails>,
    candidates: Seq<TmdbSearchResult>,
    order: Seq<int>,
) -> bool {
    order.len() == 1 && {
        let top = candidates[order[0]];
        title_score_spec(title_variants_spec(movie, fallback), top.title, top.original_title) >= 94
            && !search_conflict(movie.lookup_metadata, top)
    }
}

/// The best search result can be taken: a score of at least 138 with a lead of at least 18,
/// or a relaxed match.
pub open spec fn preliminary_confident(
    movie: TmdbLookupMovie,
    fallback: Option<MoviePageFallbackDetails>,
    candidates: Seq<TmdbSearchResult>,
    order: Seq<int>,
    values: Seq<int>,
) -> bool {
    (values.len() > 0 && values[0] >= 138 && gap_of(values) >= 18) || relaxed_preliminary(movie, fallback, candidates, order)
}

/// Search results ranked as `ranked` says, with valid positions.
pub open spec fn ranked_search_valid(ranked: Seq<RankedSearchCandidate>, candidates: Seq<TmdbSearchResult>) -> bool {
    &&& descending(search_ranked_scores(ranked))
    &&& forall|k: int| 0 <= k < ranked.len() ==> (#[trigger] ranked[k]).index < candidates.len() && 0 <= ranked[k].score <= 1000
}

pub fn is_preliminary_confident(
    movie: &TmdbLookupMovie,
    fallback_details: Option<&MoviePageFallbackDetails>,
    candidates: &Vec<TmdbSearchResult>,
    ranked: &Vec<RankedSearchCandidate>,
) -> (r: bool)
    requires
        ranked_search_valid(ranked@, candidates@),
    ensures
        r == preliminary_confident(*movie, opt_ref(fallback_details), candidates@, search_ranking_indices(ranked@), search_ranked_scores(ranked@)),
{
    if ranked.len() > 0 && ranked[0].score >= 138 && search_score_gap(ranked) >= 18 {
        return true;
    }
    if ranked.len() != 1 {
        return false;
    }
    let top = &candidates[ranked[0].index];
    let variants = build_title_variants(movie, fallback_details);
    let title = title_score(&variants, &top.title, &top.original_title);
    title >= 94 && !(has_year_conflict(resolve_search_year(&movie.lookup_metadata), &top.release_date)
        || has_language_conflict(&movie.lookup_metadata.original_language_code, &top.original_language))
}

/// A single detailed candidate, or a clear enough lead, whose title matches well and whose
/// metadata does not contradict the movie's.
pub open spec fn relaxed_detailed(
    movie: TmdbLookupMovie,
    fallback: Option<MoviePageFallbackDetails>,
    detailed: Seq<TmdbDetailedCandidate>,
    order: Seq<int>,
    values: Seq<int>,
) -> bool {
    order.len() > 0 && {
        let top = detailed[order[0]].details;
        title_score_spec(title_variants_spec(movie, fallback), top.title, top.original_title) >= 94
            && !detailed_conflict(movie.lookup_metadata, top)
            && (order.len() == 1 || gap_of(values) >= 4 || metadata_support(movie.lookup_metadata, fallback, top) >= 18)
    }
}

/// The best detailed candidate can be taken: a score of at least 145 with a lead of at least
/// 12, or a relaxed match.
pub open spec fn final_confident(
    movie: TmdbLookupMovie,
    fallback: Option<MoviePageFallbackDetails>,
    detailed: Seq<TmdbDetailedCandidate>,
    order: Seq<int>,
    values: Seq<int>,
) -> bool {
    (values.len() > 0 && values[0] >= 145 && gap_of(values) >= 12) || relaxed_detailed(movie, fallback, detailed, order, values)
}

pub open spec fn ranked_detailed_valid(ranked: Seq<RankedDetailedCandidate>, detailed: Seq<TmdbDetailedCandidate>) -> bool {
    &&& descending(detailed_ranked_scores(ranked))
    &&& forall|k: int| 0 <= k < ranked.len() ==> (#[trigger] ranked[k]).index < detailed.len() && 0 <= ranked[k].score <= 1000
}

pub fn is_final_confident(
    movie: &TmdbLookupMovie,
    fallback_details: Option<&MoviePageFallbackDetails>,
    detailed: &Vec<TmdbDetailedCandidate>,
    ranked: &Vec<RankedDetailedCandidate>,
) -> (r: bool)
    requires
        ranked_detailed_valid(ranked@, detailed@),
    ensures
        r == final_confident(*movie, opt_ref(fallback_details), detailed@, detailed_ranking_indices(ranked@), detailed_ranked_scores(ranked@)),
{
    if ranked.len() > 0 && ranked[0].score >= 145 && detailed_score_gap(ranked) >= 12 {
        return true;
    }
    if ranked.len() == 0 {
        return false;
    }
    let top = &detailed[ranked[0].index].details;
    let variants = build_title_variants(movie, fallback_details);
    let title = title_score(&variants, &top.title, &top.original_title);
    if title < 94 {
        return false;
    }
    if has_year_conflict(resolve_search_year(&movie.lookup_metadata), &top.release_date)
        || has_language_conflict(&movie.lookup_metadata.original_language_code, &top.original_language)
        || has_runtime_conflict(movie.lookup_metadata.runtime_minutes, top.runtime) {
        return false;
    }
    ranked.len() == 1 || detailed_score_gap(ranked) >= 4 || detailed_metadata_support(&movie.lookup_metadata, fallback_details, top) >= 18
}

/// The rating as shown: the one-decimal average out of ten and the number of votes on the
/// next line, when both are known.
pub open spec fn rating_text(vote_average_label: Option<String>, vote_count: Option<u32>) -> Seq<char> {
    match (vote_average_label, vote_count) {
        (Some(a), Some(c)) => a@ + "/10\n(głosy: "@ + decimal_seq(c as nat) + ")"@,
        _ => Seq::empty(),
    }
}

pub fn render_rating(vote_average_label: &Option<String>, vote_count: Option<u32>) -> (r: String)
    ensures
        r@ == rating_text(*vote_average_label, vote_count),
{
    match (vote_average_label, vote_count) {
        (Some(a), Some(c)) => {
            let mut v = chars_of(a.as_str());
            push_str(&mut v, "/10\n(głosy: ");
            let d = u64_to_decimal(c as u64);
            push_all(&mut v, d.as_slice());
            push_str(&mut v, ")");
            string_of(v.as_slice())
        },
        _ => String::new(),
    }
}

pub open spec fn text_or_empty(v: Option<String>) -> Seq<char> {
    match v {
        Some(t) => t@,
        None => Seq::empty(),
    }
}

fn clone_or_empty(v: &Option<String>) -> (r: String)
    ensures
        r@ == text_or_empty(*v),
{
    match v {
        Some(t) => t.clone(),
        None => String::new(),
    }
}

/// The rating and summary shown for a search result.
pub fn render_details_from_search(movie: &TmdbSearchResult) -> (r: TmdbMovieDetails)
    ensures
        r.rating@ == rating_text(movie.vote_average_label, movie.vote_count),
        r.summary@ == text_or_empty(movie.overview),
{
    TmdbMovieDetails { rating: render_rating(&movie.vote_average_label, movie.vote_count), summary: clone_or_empty(&movie.overview) }
}

/// The rating and summary shown for a movie's details.
pub fn render_details_from_detailed(movie: &TmdbMovieDetailsResponse) -> (r: TmdbMovieDetails)
    ensures
        r.rating@ == rating_text(movie.vote_average_label, movie.vote_count),
        r.summary@ == text_or_empty(movie.overview),
{
    TmdbMovieDetails { rating: render_rating(&movie.vote_average_label, movie.vote_count), summary: clone_or_empty(&movie.overview) }
}

/// In a ranking, scores descend.
pub proof fn lemma_ranking_descending(o: Seq<int>, scores: Seq<int>, votes: Seq<int>)
    requires
        is_ranking(o, scores, votes),
    ensures
        descending(ranked_values(o, scores)),
{
    assert forall|k: int, l: int| 0 <= k < l < ranked_values(o, scores).len() implies ranked_values(o, scores)[k] >= ranked_values(o, scores)[l] by {
        assert(ranks_before(scores[o[k]], votes[o[k]], o[k], scores[o[l]], votes[o[l]], o[l]));
    }
}

/// What a lookup decides once its searches and detail requests are done: the rendered
/// rating and summary of the best detailed candidate when it is confidently ahead, else of
/// the best search result when that one is, else nothing.
pub open spec fn match_decision(
    movie: TmdbLookupMovie,
    fallback: Option<MoviePageFallbackDetails>,
    candidates: Seq<TmdbSearchResult>,
    detailed: Seq<TmdbDetailedCandidate>,
) -> Option<(Seq<char>, Seq<char>)> {
    let sc = search_scores(movie, fallback, candidates);
    let so = ranking_of(sc, search_votes(candidates));
    let dsc = detailed_scores(movie, fallback, detailed);
    let dord = ranking_of(dsc, detailed_votes(detailed));
    if candidates.len() == 0 {
        None
    } else if detailed.len() > 0 && final_confident(movie, fallback, detailed, dord, ranked_values(dord, dsc)) {
        let top = detailed[dord[0]].details;
        Some((rating_text(top.vote_average_label, top.vote_count), text_or_empty(top.overview)))
    } else if preliminary_confident(movie, fallback, candidates, so, ranked_values(so, sc)) {
        let top = candidates[so[0]];
        Some((rating_text(top.vote_average_label, top.vote_count), text_or_empty(top.overview)))
    } else {
        None
    }
}

pub open spec fn details_view(d: Option<TmdbMovieDetails>) -> Option<(Seq<char>, Seq<char>)> {
    match d {
        Some(x) => Some((x.rating@, x.summary@)),
        None => None,
    }
}

pub fn decide_match(
    movie: &TmdbLookupMovie,
    fallback_details: Option<&MoviePageFallbackDetails>,
    candidates: &Vec<TmdbSearchResult>,
    detailed: &Vec<TmdbDetailedCandidate>,
) -> (r: Option<TmdbMovieDetails>)
    requires
        preliminary_scores_valid(detailed@),
    ensures
        details_view(r) == match_decision(*movie, opt_ref(fallback_details), candidates@, detailed@),
{
    let ghost fb = opt_ref(fallback_details);
    let ranked = rank_search_candidates(movie, fallback_details, candidates);
    let ghost sc = search_scores(*movie, fb, candidates@);
    let ghost so = ranking_of(sc, search_votes(candidates@));
    proof {
        lemma_ranking_descending(so, sc, search_votes(candidates@));
        assert(search_ranked_scores(ranked@) =~= ranked_values(so, sc));
    }
    if ranked.len() == 0 {
        return None;
    }
    if detailed.len() > 0 {
        let final_ranked = rank_detailed_candidates(movie, fallback_details, detailed);
        let ghost dsc = detailed_scores(*movie, fb, detailed@);
        let ghost dord = ranking_of(dsc, detailed_votes(detailed@));
        proof {
            lemma_ranking_descending(dord, dsc, detailed_votes(detailed@));
            assert(detailed_ranked_scores(final_ranked@) =~= ranked_values(dord, dsc));
        }
        if is_final_confident(movie, fallback_details, detailed, &final_ranked) {
            assert(final_ranked@[0].index as int == dord[0]);
            return Some(render_details_from_detailed(&detailed[final_ranked[0].index].details));
        }
    }
    if is_preliminary_confident(movie, fallback_details, candidates, &ranked) {
        assert(ranked@[0].index as int == so[0]);
        return Some(render_details_from_search(&candidates[ranked[0].index]));
    }
    None
}
} // verus!
