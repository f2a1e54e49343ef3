//! Text handling shared by the cinema chains: people lists, query parameters, scripts that
//! assign JSON to a variable, and the normalization used to compare titles.
use crate::domain::MoviePageFallbackDetails;
use crate::error::{AppError, AppResult};
use crate::text::{
    chars_of, collapse_ws_seq, copy_range, find_from, is_ascii_alnum, is_ascii_alphanumeric,
    is_ws, lower_char, occurs_at, push_all, push_str, split_on, split_seq, string_of, strings_of, trim,
    trim_end_seq, trim_pieces_nonempty, trim_seq, trim_start_seq, trimmed_nonempty, views_of, to_ascii_lowercase_char,
};
use vstd::prelude::*;

verus! {

/// The text shown where a chain gives no value.
pub const MISSING_DATA_LABEL: &'static str = "Brak danych";

/// An optional text, trimmed; empty texts count as missing.
pub open spec fn normalized_optional(value: Option<Seq<char>>) -> Option<Seq<char>> {
    match value {
        Some(v) => if trim_seq(v).len() == 0 {
            None
        } else {
            Some(trim_seq(v))
        },
        None => None,
    }
}

pub open spec fn opt_view(value: Option<String>) -> Option<Seq<char>> {
    match value {
        Some(v) => Some(v@),
        None => None,
    }
}

pub fn normalize_optional_text(value: Option<String>) -> (r: Option<String>)
    ensures
        opt_view(r) == normalized_optional(opt_view(value)),
{
    match value {
        Some(v) => {
            let t = trim(chars_of(v.as_str()).as_slice());
            if t.len() == 0 {
                None
            } else {
                Some(string_of(t.as_slice()))
            }
        },
        None => None,
    }
}

/// The names in a list separated by commas or semicolons, trimmed, without empty entries.
pub open spec fn people_list(value: Seq<char>) -> Seq<Seq<char>> {
    trimmed_nonempty(split_seq(value, seq![',', ';']))
}

pub open spec fn string_views(v: Seq<String>) -> Seq<Seq<char>> {
    v.map_values(|s: String| s@)
}

pub fn split_people_list(value: Option<&str>) -> (r: Vec<String>)
    ensures
        string_views(r@) == people_list(
            match value {
                Some(v) => v@,
                None => Seq::<char>::empty(),
            },
        ),
{
    let chars = match value {
        Some(v) => chars_of(v),
        None => Vec::new(),
    };
    let mut seps: Vec<char> = Vec::new();
    seps.push(',');
    seps.push(';');
    assert(seps@ =~= seq![',', ';']);
    let pieces = split_on(chars.as_slice(), seps.as_slice());
    let kept = trim_pieces_nonempty(&pieces);
    let r = strings_of(&kept);
    assert(string_views(r@) =~= views_of(kept@));
    r
}

/// The characters of `s` before the first `=`, and after it, if there is one.
pub open spec fn split_once_eq(s: Seq<char>) -> Option<(Seq<char>, Seq<char>)> {
    if s.contains('=') {
        let i = choose|i: int| 0 <= i < s.len() && s[i] == '=' && forall|j: int| 0 <= j < i ==> s[j] != '=';
        Some((s.subrange(0, i), s.subrange(i + 1, s.len() as int)))
    } else {
        None
    }
}

/// Index of the first segment that names `name`.
pub open spec fn first_param_segment(segments: Seq<Seq<char>>, name: Seq<char>, from: int) -> Option<int>
    decreases segments.len() - from,
{
    if from >= segments.len() || from < 0 {
        None
    } else if split_once_eq(segments[from]) matches Some((n, _)) && n == name {
        Some(from)
    } else {
        first_param_segment(segments, name, from + 1)
    }
}

/// The value of the first `name=value` segment of a URL (segments end at `?`, `#`, `&`),
/// unless that value is blank.
pub open spec fn query_param_spec(url: Seq<char>, name: Seq<char>) -> Option<Seq<char>> {
    let segments = split_seq(url, seq!['?', '#', '&']);
    match first_param_segment(segments, name, 0) {
        Some(i) => match split_once_eq(segments[i]) {
            Some((_, value)) => if trim_seq(value).len() == 0 {
                None
            } else {
                Some(value)
            },
            None => None,
        },
        None => None,
    }
}

pub(crate) fn split_once_eq_exec(s: &[char]) -> (r: Option<(Vec<char>, Vec<char>)>)
    ensures
        match r {
            Some((a, b)) => split_once_eq(s@) == Some((a@, b@)),
            None => split_once_eq(s@) is None,
        },
{
    let mut i: usize = 0;
    while i < s.len()
        invariant
            i <= s@.len(),
            forall|j: int| 0 <= j < i ==> s@[j] != '=',
        decreases s.len() - i,
    {
        if s[i] == '=' {
            let ghost k = choose|k: int| 0 <= k < s@.len() && s@[k] == '=' && forall|j: int| 0 <= j < k ==> s@[j] != '=';
            assert(s@.contains('='));
            assert(k == i) by {
                if k < i {
                } else if k > i {
                    assert(s@[i as int] == '=');
                }
            }
            return Some((copy_range(s, 0, i), copy_range(s, i + 1, s.len())));
        }
        i = i + 1;
    }
    None
}

pub fn extract_query_param(url: &str, parameter_name: &str) -> (r: Option<String>)
    ensures
        opt_view(r) == query_param_spec(url@, parameter_name@),
{
    let chars = chars_of(url);
    let name = chars_of(parameter_name);
    let mut seps: Vec<char> = Vec::new();
    seps.push('?');
    seps.push('#');
    seps.push('&');
    assert(seps@ =~= seq!['?', '#', '&']);
    let segments = split_on(chars.as_slice(), seps.as_slice());
    let ghost segs = views_of(segments@);
    let mut i: usize = 0;
    while i < segments.len()
        invariant
            i <= segments@.len(),
            segs == views_of(segments@),
            segs == split_seq(url@, seq!['?', '#', '&']),
            name@ == parameter_name@,
            first_param_segment(segs, name@, 0) == first_param_segment(segs, name@, i as int),
        decreases segments.len() - i,
    {
        assert(segs[i as int] == segments@[i as int]@);
        match split_once_eq_exec(segments[i].as_slice()) {
            Some((n, v)) => {
                if crate::text::chars_eq(n.as_slice(), name.as_slice()) {
                    let t = trim(v.as_slice());
                    if t.len() == 0 {
                        return None;
                    }
                    return Some(string_of(v.as_slice()));
                }
            },
            None => {},
        }
        i = i + 1;
    }
    None
}

/// Where the JSON text that `variable = open` starts.
pub open spec fn assignment_needle(variable: Seq<char>, open: char) -> Seq<char> {
    variable + " = "@ + seq![open]
}

/// The position just past the value that starts at `k`: brackets are counted outside of
/// JSON strings, and a backslash escapes the next character inside a string.
pub open spec fn scan_json_end(
    s: Seq<char>,
    k: int,
    depth: int,
    inside_string: bool,
    escaped: bool,
    open: char,
    close: char,
) -> Option<int>
    decreases s.len() - k,
{
    if k < 0 || k >= s.len() {
        None
    } else {
        let c = s[k];
        if inside_string {
            if c == '\\' && !escaped {
                scan_json_end(s, k + 1, depth, true, true, open, close)
            } else if c == '"' && !escaped {
                scan_json_end(s, k + 1, depth, false, escaped, open, close)
            } else {
                scan_json_end(s, k + 1, depth, true, false, open, close)
            }
        } else if c == '"' {
            scan_json_end(s, k + 1, depth, true, escaped, open, close)
        } else if c == open {
            scan_json_end(s, k + 1, depth + 1, false, escaped, open, close)
        } else if c == close {
            if depth - 1 == 0 {
                Some(k + 1)
            } else {
                scan_json_end(s, k + 1, depth - 1, false, escaped, open, close)
            }
        } else {
            scan_json_end(s, k + 1, depth, false, escaped, open, close)
        }
    }
}

/// The first position at or after `from` that holds `c`.
pub open spec fn first_char_from(s: Seq<char>, c: char, from: int) -> Option<int>
    decreases s.len() - from,
{
    if from < 0 || from >= s.len() {
        None
    } else if s[from] == c {
        Some(from)
    } else {
        first_char_from(s, c, from + 1)
    }
}

/// The JSON value assigned by the first `variable = <open>...` in `html`, from its opening
/// character to the matching closing one.
pub open spec fn json_assignment_spec(html: Seq<char>, variable: Seq<char>, open: char, close: char) -> Option<Seq<char>> {
    let needle = assignment_needle(variable, open);
    if exists|i: int| occurs_at(html, needle, i) {
        let start = choose|i: int| occurs_at(html, needle, i) && forall|j: int| 0 <= j < i ==> !occurs_at(html, needle, j);
        match first_char_from(html, open, start) {
            Some(json_start) => match scan_json_end(html, json_start, 0, false, false, open, close) {
                Some(end) => Some(html.subrange(json_start, end)),
                None => None,
            },
            None => None,
        }
    } else {
        None
    }
}

fn first_char_from_exec(s: &[char], c: char, from: usize) -> (r: Option<usize>)
    ensures
        match r {
            Some(i) => first_char_from(s@, c, from as int) == Some(i as int),
            None => first_char_from(s@, c, from as int) is None,
        },
{
    let mut i = from;
    while i < s.len()
        invariant
            from <= i,
            first_char_from(s@, c, from as int) == first_char_from(s@, c, i as int),
        decreases s.len() - i,
    {
        if s[i] == c {
            return Some(i);
        }
        i = i + 1;
    }
    None
}

fn scan_json_end_exec(s: &[char], start: usize, open: char, close: char) -> (r: Option<usize>)
    requires
        start <= s@.len(),
    ensures
        match r {
            Some(e) => scan_json_end(s@, start as int, 0, false, false, open, close) == Some(
                e as int,
            ) && start < e <= s@.len(),
            None => scan_json_end(s@, start as int, 0, false, false, open, close) is None,
        },
{
    let mut k = start;
    let mut depth: i128 = 0;
    let mut inside_string = false;
    let mut escaped = false;
    while k < s.len()
        invariant
            start <= k <= s@.len(),
            -(k - start) <= depth <= k - start,
            scan_json_end(s@, start as int, 0, false, false, open, close) == scan_json_end(
                s@,
                k as int,
                depth as int,
                inside_string,
                escaped,
                open,
                close,
            ),
        decreases s.len() - k,
    {
        let c = s[k];
        if inside_string {
            if c == '\\' && !escaped {
                escaped = true;
            } else if c == '"' && !escaped {
                inside_string = false;
            } else {
                escaped = false;
            }
        } else if c == '"' {
            inside_string = true;
        } else if c == open {
            depth = depth + 1;
        } else if c == close {
            if depth == 1 {
                return Some(k + 1);
            }
            depth = depth - 1;
        }
        k = k + 1;
    }
    None
}

} // verus!

verus! {

pub fn extract_json_assignment(html: &str, variable_name: &str, open_char: char, close_char: char) -> (r: Option<String>)
    ensures
        opt_view(r) == json_assignment_spec(html@, variable_name@, open_char, close_char),
{
    let h = chars_of(html);
    let mut needle = chars_of(variable_name);
    push_str(&mut needle, " = ");
    needle.push(open_char);
    assert(needle@ =~= assignment_needle(variable_name@, open_char));
    let start = match find_from(h.as_slice(), needle.as_slice(), 0) {
        Some(i) => i,
        None => {
            return None;
        },
    };
    proof {
        let n = assignment_needle(variable_name@, open_char);
        assert(occurs_at(h@, n, start as int));
        let c = choose|i: int| occurs_at(h@, n, i) && forall|j: int| 0 <= j < i ==> !occurs_at(h@, n, j);
        assert(c == start as int) by {
            if c < start {
            } else if c > start {
            }
        }
    }
    let json_start = match first_char_from_exec(h.as_slice(), open_char, start) {
        Some(j) => j,
        None => {
            return None;
        },
    };
    proof {
        lemma_first_char_from_found(h@, open_char, start as int);
    }
    match scan_json_end_exec(h.as_slice(), json_start, open_char, close_char) {
        Some(end) => Some(string_of(copy_range(h.as_slice(), json_start, end).as_slice())),
        None => None,
    }
}

proof fn lemma_first_char_from_found(s: Seq<char>, c: char, from: int)
    ensures
        first_char_from(s, c, from) matches Some(i) ==> 0 <= from <= i < s.len() && s[i] == c,
    decreases s.len() - from,
{
    if 0 <= from < s.len() && s[from] != c {
        lemma_first_char_from_found(s, c, from + 1);
    }
}

pub fn extract_json_array_assignment(html: &str, variable_name: &str) -> (r: Option<String>)
    ensures
        opt_view(r) == json_assignment_spec(html@, variable_name@, '[', ']'),
{
    extract_json_assignment(html, variable_name, '[', ']')
}

pub fn extract_json_object_assignment(html: &str, variable_name: &str) -> (r: Option<String>)
    ensures
        opt_view(r) == json_assignment_spec(html@, variable_name@, '{', '}'),
{
    extract_json_assignment(html, variable_name, '{', '}')
}

/// Polish letters replaced by their ASCII base letters.
pub open spec fn fold_polish(c: char) -> char {
    if c == 'ą' {
        'a'
    } else if c == 'ć' {
        'c'
    } else if c == 'ę' {
        'e'
    } else if c == 'ł' {
        'l'
    } else if c == 'ń' {
        'n'
    } else if c == 'ó' {
        'o'
    } else if c == 'ś' {
        's'
    } else if c == 'ź' || c == 'ż' {
        'z'
    } else if c == 'Ą' {
        'A'
    } else if c == 'Ć' {
        'C'
    } else if c == 'Ę' {
        'E'
    } else if c == 'Ł' {
        'L'
    } else if c == 'Ń' {
        'N'
    } else if c == 'Ó' {
        'O'
    } else if c == 'Ś' {
        'S'
    } else if c == 'Ź' || c == 'Ż' {
        'Z'
    } else {
        c
    }
}

pub fn fold_polish_character_to_ascii(character: char) -> (r: char)
    ensures
        r == fold_polish(character),
{
    match character {
        'ą' => 'a',
        'ć' => 'c',
        'ę' => 'e',
        'ł' => 'l',
        'ń' => 'n',
        'ó' => 'o',
        'ś' => 's',
        'ź' | 'ż' => 'z',
        'Ą' => 'A',
        'Ć' => 'C',
        'Ę' => 'E',
        'Ł' => 'L',
        'Ń' => 'N',
        'Ó' => 'O',
        'Ś' => 'S',
        'Ź' | 'Ż' => 'Z',
        _ => character,
    }
}

/// Each character folded to ASCII and lower-cased; letters and digits kept, and every run
/// of other characters turned into one space.
pub open spec fn lookup_raw(s: Seq<char>) -> Seq<char>
    decreases s.len(),
{
    if s.len() == 0 {
        Seq::empty()
    } else {
        let pre = lookup_raw(s.drop_last());
        let c = lower_char(fold_polish(s.last()));
        if is_ascii_alnum(c) {
            pre.push(c)
        } else if pre.len() > 0 && pre.last() == ' ' {
            pre
        } else {
            pre.push(' ')
        }
    }
}

/// The form in which titles, genres and venue names are compared.
pub open spec fn lookup_text_spec(s: Seq<char>) -> Seq<char> {
    trim_seq(lookup_raw(s))
}

pub fn normalize_lookup_chars(value: &[char]) -> (r: Vec<char>)
    ensures
        r@ == lookup_text_spec(value@),
{
    let mut normalized: Vec<char> = Vec::new();
    let mut previous_was_separator = false;
    let mut i: usize = 0;
    while i < value.len()
        invariant
            i <= value@.len(),
            normalized@ == lookup_raw(value@.subrange(0, i as int)),
            previous_was_separator == (normalized@.len() > 0 && normalized@.last() == ' '),
        decreases value.len() - i,
    {
        assert(value@.subrange(0, i + 1).drop_last() =~= value@.subrange(0, i as int));
        let lowered = to_ascii_lowercase_char(fold_polish_character_to_ascii(value[i]));
        if is_ascii_alphanumeric(lowered) {
            normalized.push(lowered);
            previous_was_separator = false;
        } else if !previous_was_separator {
            normalized.push(' ');
            previous_was_separator = true;
        }
        i = i + 1;
    }
    assert(value@.subrange(0, value@.len() as int) =~= value@);
    trim(normalized.as_slice())
}

pub fn normalize_lookup_text(value: &str) -> (r: String)
    ensures
        r@ == lookup_text_spec(value@),
{
    let v = chars_of(value);
    string_of(normalize_lookup_chars(v.as_slice()).as_slice())
}

/// A character that may stand in a normalized lookup text: a lower-case ASCII letter, an
/// ASCII digit or a space.
pub open spec fn is_lookup_char(c: char) -> bool {
    ('a' <= c && c <= 'z') || ('0' <= c && c <= '9') || c == ' '
}

/// Only lookup characters, with no two spaces side by side.
pub open spec fn lookup_chars_single_spaced(s: Seq<char>) -> bool {
    &&& forall|i: int| 0 <= i < s.len() ==> is_lookup_char(#[trigger] s[i])
    &&& forall|i: int| 0 <= i < s.len() - 1 ==> !(#[trigger] s[i] == ' ' && s[i + 1] == ' ')
}

/// The normal form of lookup texts: lookup characters only, single spaces between words, and
/// no space at either end.
pub open spec fn is_lookup_normal_form(s: Seq<char>) -> bool {
    &&& lookup_chars_single_spaced(s)
    &&& s.len() > 0 ==> s[0] != ' ' && s.last() != ' '
}

proof fn lemma_lookup_raw_single_spaced(s: Seq<char>)
    ensures
        lookup_chars_single_spaced(lookup_raw(s)),
    decreases s.len(),
{
    if s.len() > 0 {
        lemma_lookup_raw_single_spaced(s.drop_last());
        let pre = lookup_raw(s.drop_last());
        let c = lower_char(fold_polish(s.last()));
        let r = lookup_raw(s);
        if is_ascii_alnum(c) {
            assert(is_lookup_char(c));
            assert(r == pre.push(c));
            assert forall|i: int| 0 <= i < r.len() implies is_lookup_char(#[trigger] r[i]) by {
                if i < pre.len() {
                    assert(r[i] == pre[i]);
                }
            }
            assert forall|i: int| 0 <= i < r.len() - 1 implies !(#[trigger] r[i] == ' ' && r[i
                + 1] == ' ') by {
                assert(r[i] == pre[i]);
                if i + 1 < pre.len() {
                    assert(r[i + 1] == pre[i + 1]);
                }
            }
        } else if !(pre.len() > 0 && pre.last() == ' ') {
            assert(r == pre.push(' '));
            assert forall|i: int| 0 <= i < r.len() implies is_lookup_char(#[trigger] r[i]) by {
                if i < pre.len() {
                    assert(r[i] == pre[i]);
                }
            }
            assert forall|i: int| 0 <= i < r.len() - 1 implies !(#[trigger] r[i] == ' ' && r[i
                + 1] == ' ') by {
                assert(r[i] == pre[i]);
                if i + 1 < pre.len() {
                    assert(r[i + 1] == pre[i + 1]);
                }
            }
        }
    }
}

proof fn lemma_trim_start_suffix(s: Seq<char>) -> (i: int)
    ensures
        0 <= i <= s.len(),
        trim_start_seq(s) == s.subrange(i, s.len() as int),
        i < s.len() ==> !is_ws(s[i]),
    decreases s.len(),
{
    if s.len() > 0 && is_ws(s[0]) {
        let j = lemma_trim_start_suffix(s.drop_first());
        assert(s.drop_first().subrange(j, s.drop_first().len() as int) =~= s.subrange(
            j + 1,
            s.len() as int,
        ));
        j + 1
    } else {
        assert(s.subrange(0, s.len() as int) =~= s);
        0
    }
}

proof fn lemma_trim_end_prefix(s: Seq<char>) -> (e: int)
    ensures
        0 <= e <= s.len(),
        trim_end_seq(s) == s.subrange(0, e),
        e > 0 ==> !is_ws(s[e - 1]),
    decreases s.len(),
{
    if s.len() > 0 && is_ws(s.last()) {
        let f = lemma_trim_end_prefix(s.drop_last());
        assert(s.drop_last().subrange(0, f) =~= s.subrange(0, f));
        f
    } else {
        assert(s.subrange(0, s.len() as int) =~= s);
        s.len() as int
    }
}

proof fn lemma_lookup_raw_fixed(s: Seq<char>)
    requires
        lookup_chars_single_spaced(s),
    ensures
        lookup_raw(s) == s,
    decreases s.len(),
{
    if s.len() > 0 {
        let pre = s.drop_last();
        assert(lookup_chars_single_spaced(pre)) by {
            assert forall|i: int| 0 <= i < pre.len() implies is_lookup_char(#[trigger] pre[i]) by {
                assert(pre[i] == s[i]);
            }
            assert forall|i: int| 0 <= i < pre.len() - 1 implies !(#[trigger] pre[i] == ' '
                && pre[i + 1] == ' ') by {
                assert(pre[i] == s[i] && pre[i + 1] == s[i + 1]);
            }
        }
        lemma_lookup_raw_fixed(pre);
        let last = s.last();
        assert(is_lookup_char(s[s.len() - 1]));
        assert(fold_polish(last) == last);
        assert(lower_char(last) == last);
        if last == ' ' {
            if pre.len() > 0 {
                assert(!(s[s.len() - 2] == ' ' && s[s.len() - 1] == ' '));
            }
        }
        assert(s =~= pre.push(last));
    }
}

/// Normalizing a lookup text gives its normal form: only lower-case ASCII letters, ASCII
/// digits and spaces, no space at either end and never two spaces in a row; and normalizing
/// that normal form again gives it back unchanged.
pub proof fn lemma_lookup_text_normal_form(value: Seq<char>)
    ensures
        is_lookup_normal_form(lookup_text_spec(value)),
        lookup_text_spec(lookup_text_spec(value)) == lookup_text_spec(value),
{
    let raw = lookup_raw(value);
    lemma_lookup_raw_single_spaced(value);
    let i = lemma_trim_start_suffix(raw);
    let mid = raw.subrange(i, raw.len() as int);
    let e = lemma_trim_end_prefix(mid);
    let t = mid.subrange(0, e);
    assert(t == lookup_text_spec(value));
    assert(t =~= raw.subrange(i, i + e));
    assert forall|k: int| 0 <= k < t.len() implies is_lookup_char(#[trigger] t[k]) by {
        assert(t[k] == raw[i + k]);
    }
    assert forall|k: int| 0 <= k < t.len() - 1 implies !(#[trigger] t[k] == ' ' && t[k + 1]
        == ' ') by {
        assert(t[k] == raw[i + k] && t[k + 1] == raw[i + k + 1]);
    }
    if t.len() > 0 {
        assert(t[0] == mid[0]);
        assert(t.last() == mid[e - 1]);
    }
    lemma_lookup_raw_fixed(t);
    if t.len() > 0 {
        assert(!is_ws(t[0]));
        assert(!is_ws(t.last()));
    }
    assert(trim_start_seq(t) == t);
    assert(trim_end_seq(t) == t);
}

/// The fields of a movie page's `filmDetails` object, as the page writes them.
#[derive(Debug, Clone, PartialEq, Eq)]
pub struct EmbeddedMoviePageDetails {
    pub original_name: Option<String>,
    pub release_country: Option<String>,
    pub cast: Option<String>,
    pub directors: Option<String>,
    pub synopsis: Option<String>,
}

/// The `filmDetails` JSON of a movie page, or the error reported when the page has none.
pub fn locate_film_details(rendered_html: &str) -> (r: AppResult<String>)
    ensures
        match r {
            Ok(json) => json_assignment_spec(rendered_html@, "filmDetails"@, '{', '}') == Some(json@),
            Err(e) => json_assignment_spec(rendered_html@, "filmDetails"@, '{', '}') is None && (e matches AppError::BrowserUnavailable(m) && m@ == "Nie udało się odczytać szczegółów filmu z aktualnego formatu strony."@),
        },
{
    match extract_json_object_assignment(rendered_html, "filmDetails") {
        Some(json) => Ok(json),
        None => Err(AppError::BrowserUnavailable(string_of(chars_of("Nie udało się odczytać szczegółów filmu z aktualnego formatu strony.").as_slice()))),
    }
}

pub open spec fn opt_seq_or_empty(v: Option<String>) -> Seq<char> {
    match v {
        Some(s) => s@,
        None => Seq::empty(),
    }
}

impl MoviePageFallbackDetails {
    /// The fallback details read from a page's `filmDetails`: texts trimmed (empty ones
    /// dropped), cast and directors split into names.
    pub fn from_embedded(details: EmbeddedMoviePageDetails) -> (r: Self)
        ensures
            opt_view(r.original_title) == normalized_optional(opt_view(details.original_name)),
            opt_view(r.country) == normalized_optional(opt_view(details.release_country)),
            string_views(r.cast@) == people_list(opt_seq_or_empty(details.cast)),
            string_views(r.directors@) == people_list(opt_seq_or_empty(details.directors)),
            opt_view(r.synopsis) == normalized_optional(opt_view(details.synopsis)),
    {
        let cast = match &details.cast {
            Some(c) => split_people_list(Some(c.as_str())),
            None => split_people_list(None),
        };
        let directors = match &details.directors {
            Some(c) => split_people_list(Some(c.as_str())),
            None => split_people_list(None),
        };
        MoviePageFallbackDetails {
            original_title: normalize_optional_text(details.original_name),
            country: normalize_optional_text(details.release_country),
            cast,
            directors,
            synopsis: normalize_optional_text(details.synopsis),
        }
    }
}

} // verus!
