//! What the tool prints: venue search patterns, dates, and the repertoire and venue tables.
use crate::common::{opt_view, MISSING_DATA_LABEL};
use crate::domain::{
    CinemaVenue, MoviePlayDetails, MoviePlayTime, Repertoire, RepertoireCliTableMetadata,
    TmdbMovieDetails,
};
use crate::error::{AppError, AppResult};
use crate::table::{comfy_table_text, render_table, terminal_table_width};
use crate::patterns::{regex_replace_all, regex_replace_all_result, NON_WORD_PATTERN};
use crate::text::{
    chars_of, collapse_repeated, collapse_repeats, collapse_whitespace_to, collapse_ws_to,
    contains_char, eq_str, join, join_seq, push_all, push_str, replace, replace_non_ascii,
    replace_non_ascii_seq, replace_seq, starts_with_seq, string_of, trim, trim_seq, views_of,
    is_ascii_digit_spec, is_ws, lower_char, lower_seq, to_ascii_lowercase_char,
    occurs_at_exec, usize_to_decimal,
};
use vstd::prelude::*;

verus! {

/// A sink for lines of output.
pub trait Terminal {
    fn write_line(&mut self, text: &str);
}

/// `text` kept as a line: followed by a newline unless it already ends with one.
pub open spec fn line_text(text: Seq<char>) -> Seq<char> {
    if text.len() > 0 && text.last() == '\n' {
        text
    } else {
        text.push('\n')
    }
}

/// The lines `lines` kept one after another.
pub open spec fn lines_text(lines: Seq<Seq<char>>) -> Seq<char>
    decreases lines.len(),
{
    if lines.len() == 0 {
        Seq::empty()
    } else {
        lines_text(lines.drop_last()) + line_text(lines.last())
    }
}

/// A terminal that keeps what was written.
pub struct BufferTerminal {
    output: String,
}

impl BufferTerminal {
    pub closed spec fn contents(&self) -> Seq<char> {
        self.output@
    }

    pub fn new() -> (r: Self)
        ensures
            r.contents().len() == 0,
    {
        BufferTerminal { output: string_of(Vec::<char>::new().as_slice()) }
    }

    /// Everything written so far.
    pub fn into_string(self) -> (r: String)
        ensures
            r@ == self.contents(),
    {
        self.output
    }

    /// Appends `text`, followed by a newline unless it already ends with one.
    pub fn push_line(&mut self, text: &str)
        ensures
            final(self).contents() == old(self).contents() + line_text(text@),
    {
        let mut v = chars_of(self.output.as_str());
        let t = chars_of(text);
        push_all(&mut v, t.as_slice());
        if !(t.len() > 0 && t[t.len() - 1] == '\n') {
            v.push('\n');
        }
        self.output = string_of(v.as_slice());
    }
}

/// A new buffer terminal that is written `lines`, one after another, holds those lines in
/// order, each followed by a newline unless it already ends with one: `terminals[0]` is the
/// new terminal and each `terminals[i + 1]` is `terminals[i]` after writing `lines[i]`.
pub proof fn lemma_buffer_keeps_lines(terminals: Seq<BufferTerminal>, lines: Seq<Seq<char>>)
    requires
        terminals.len() == lines.len() + 1,
        terminals[0].contents().len() == 0,
        forall|i: int| 0 <= i < lines.len() ==> terminals[i + 1].contents() == terminals[i].contents() + line_text(#[trigger] lines[i]),
    ensures
        terminals.last().contents() == lines_text(lines),
    decreases lines.len(),
{
    if lines.len() == 0 {
        assert(terminals[0].contents() =~= Seq::<char>::empty());
    } else {
        let n = lines.len() - 1;
        let fewer = lines.drop_last();
        assert forall|i: int| 0 <= i < fewer.len() implies terminals.drop_last()[i + 1].contents()
            == terminals.drop_last()[i].contents() + line_text(#[trigger] fewer[i]) by {
            assert(fewer[i] == lines[i]);
        }
        lemma_buffer_keeps_lines(terminals.drop_last(), fewer);
        assert(lines[n] == lines.last());
    }
}

impl Terminal for BufferTerminal {
    /// Keeps `text` as a line: appended, followed by a newline unless it already ends with one.
    fn write_line(&mut self, text: &str)
        ensures
            final(self).contents() == old(self).contents() + line_text(text@),
    {
        self.push_line(text);
    }
}

/// The SQL `LIKE` pattern for a venue name typed by the user: words kept, everything else
/// turned into `%` wildcards, non-ASCII letters matched by `_`.
pub open spec fn venue_pattern_spec(input: Seq<char>) -> Seq<char> {
    let words = regex_replace_all_result(NON_WORD_PATTERN@, trim_seq(input), " "@);
    let commas = collapse_ws_to(words, ',');
    let ascii = replace_non_ascii_seq(commas, '_');
    collapse_repeats("%"@ + replace_seq(ascii, ","@, "%"@) + "%"@, '%')
}

/// `s` without the characters `a` and `b`.
pub open spec fn without_chars(s: Seq<char>, a: char, b: char) -> Seq<char>
    decreases s.len(),
{
    if s.len() == 0 {
        s
    } else if s.last() == a || s.last() == b {
        without_chars(s.drop_last(), a, b)
    } else {
        without_chars(s.drop_last(), a, b).push(s.last())
    }
}

/// What a venue name must match character by character: its characters other than
/// whitespace, commas and `%`, each ASCII one as itself and each other one as the
/// single-character wildcard `_`.
pub open spec fn literal_chars(name: Seq<char>) -> Seq<char>
    decreases name.len(),
{
    if name.len() == 0 {
        name
    } else {
        let c = name.last();
        let pre = literal_chars(name.drop_last());
        if is_ws(c) || c == ',' || c == '%' {
            pre
        } else if (c as u32) < 128 {
            pre.push(c)
        } else {
            pre.push('_')
        }
    }
}

proof fn lemma_without_chars_concat(x: Seq<char>, y: Seq<char>, a: char, b: char)
    ensures
        without_chars(x + y, a, b) == without_chars(x, a, b) + without_chars(y, a, b),
    decreases y.len(),
{
    if y.len() == 0 {
        assert(x + y =~= x);
        assert(without_chars(x, a, b) + without_chars(y, a, b) =~= without_chars(x, a, b));
    } else {
        lemma_without_chars_concat(x, y.drop_last(), a, b);
        assert((x + y).drop_last() =~= x + y.drop_last());
        assert((x + y).last() == y.last());
        if !(y.last() == a || y.last() == b) {
            assert(without_chars(x, a, b) + without_chars(y.drop_last(), a, b).push(y.last()) =~= (without_chars(x, a, b)
                + without_chars(y.drop_last(), a, b)).push(y.last()));
        }
    }
}

proof fn lemma_without_chars_single(x: char, a: char, b: char)
    ensures
        without_chars(seq![x], a, b) == if x == a || x == b {
            Seq::<char>::empty()
        } else {
            seq![x]
        },
{
    let e = Seq::<char>::empty();
    assert(without_chars(e, a, b) == e);
    assert(seq![x].drop_last() =~= e);
    assert(e.push(x) =~= seq![x]);
}

proof fn lemma_collapse_keeps_others(s: Seq<char>)
    ensures
        without_chars(collapse_repeats(s, '%'), '%', '%') == without_chars(s, '%', '%'),
    decreases s.len(),
{
    if s.len() > 0 {
        lemma_collapse_keeps_others(s.drop_last());
        let pre = collapse_repeats(s.drop_last(), '%');
        assert(pre.push(s.last()).drop_last() =~= pre);
    }
}

proof fn lemma_collapse_ends(s: Seq<char>, c: char)
    requires
        s.len() > 0,
    ensures
        collapse_repeats(s, c).len() > 0,
        collapse_repeats(s, c)[0] == s[0],
        collapse_repeats(s, c).last() == s.last(),
        forall|i: int| 0 <= i < collapse_repeats(s, c).len() - 1 ==> !(#[trigger] collapse_repeats(s, c)[i] == c
            && collapse_repeats(s, c)[i + 1] == c),
    decreases s.len(),
{
    let p = s.drop_last();
    let r = collapse_repeats(s, c);
    if s.len() == 1 {
        assert(collapse_repeats(p, c) == Seq::<char>::empty());
        assert(r =~= seq![s[0]]);
    } else {
        lemma_collapse_ends(p, c);
        let pre = collapse_repeats(p, c);
        assert(p[0] == s[0]);
        if !(s.last() == c && s.len() >= 2 && p.last() == c) {
            assert(r == pre.push(s.last()));
            assert forall|i: int| 0 <= i < r.len() - 1 implies !(#[trigger] r[i] == c && r[i + 1] == c) by {
                assert(r[i] == pre[i]);
                if i + 1 < pre.len() {
                    assert(r[i + 1] == pre[i + 1]);
                }
            }
        }
    }
}

proof fn lemma_replace_commas(a: Seq<char>)
    ensures
        without_chars(replace_seq(a, ","@, "%"@), '%', '%') == without_chars(a, ',', '%'),
    decreases a.len(),
{
    reveal_strlit(",");
    reveal_strlit("%");
    assert(","@ =~= seq![',']);
    assert("%"@ =~= seq!['%']);
    if a.len() == 0 {
        assert(replace_seq(a, ","@, "%"@) == a);
    } else {
        let rest = a.drop_first();
        lemma_replace_commas(rest);
        assert(a =~= seq![a[0]] + rest);
        lemma_without_chars_concat(seq![a[0]], rest, ',', '%');
        lemma_without_chars_single(a[0], ',', '%');
        lemma_without_chars_single(a[0], '%', '%');
        if a.subrange(0, 1) == ","@ {
            assert(a[0] == a.subrange(0, 1)[0]);
            assert(a.subrange(1, a.len() as int) =~= rest);
            assert(replace_seq(a, ","@, "%"@) == "%"@ + replace_seq(rest, ","@, "%"@));
            lemma_without_chars_concat(seq!['%'], replace_seq(rest, ","@, "%"@), '%', '%');
            lemma_without_chars_single('%', '%', '%');
            assert(seq!['%'] + replace_seq(rest, ","@, "%"@) =~= "%"@ + replace_seq(rest, ","@, "%"@));
            assert(Seq::<char>::empty() + without_chars(replace_seq(rest, ","@, "%"@), '%', '%') =~= without_chars(replace_seq(rest, ","@, "%"@), '%', '%'));
            assert(Seq::<char>::empty() + without_chars(rest, ',', '%') =~= without_chars(rest, ',', '%'));
        } else {
            assert(a[0] != ',') by {
                if a[0] == ',' {
                    assert(a.subrange(0, 1) =~= ","@);
                }
            }
            assert(replace_seq(a, ","@, "%"@) == seq![a[0]] + replace_seq(a.drop_first(), ","@, "%"@));
            lemma_without_chars_concat(seq![a[0]], replace_seq(rest, ","@, "%"@), '%', '%');
        }
    }
}

proof fn lemma_ascii_commas_letters(w: Seq<char>)
    ensures
        without_chars(replace_non_ascii_seq(collapse_ws_to(w, ','), '_'), ',', '%') == literal_chars(w),
    decreases w.len(),
{
    if w.len() > 0 {
        let p = w.drop_last();
        lemma_ascii_commas_letters(p);
        let cp = collapse_ws_to(p, ',');
        let c = w.last();
        let f = |x: char| if (x as u32) < 128 { x } else { '_' };
        if is_ws(c) {
            if w.len() >= 2 && is_ws(p.last()) {
            } else {
                assert(replace_non_ascii_seq(cp.push(','), '_') =~= replace_non_ascii_seq(cp, '_').push(','));
                assert(replace_non_ascii_seq(cp, '_').push(',').drop_last() =~= replace_non_ascii_seq(cp, '_'));
            }
        } else {
            let d = if (c as u32) < 128 { c } else { '_' };
            assert(replace_non_ascii_seq(cp.push(c), '_') =~= replace_non_ascii_seq(cp, '_').push(d));
            assert(replace_non_ascii_seq(cp, '_').push(d).drop_last() =~= replace_non_ascii_seq(cp, '_'));
        }
    }
}

/// The venue search pattern of a typed name keeps the name's characters in order: with its
/// `%` wildcards taken out, it is the name's words (what the word pattern leaves of the
/// trimmed input) without whitespace, commas and `%`, each ASCII character kept as itself and
/// each non-ASCII character turned into exactly one `_`.
pub proof fn lemma_venue_pattern_keeps_letters(input: Seq<char>)
    ensures
        without_chars(venue_pattern_spec(input), '%', '%')
            == literal_chars(regex_replace_all_result(NON_WORD_PATTERN@, trim_seq(input), " "@)),
        venue_pattern_spec(input).len() > 0,
        venue_pattern_spec(input)[0] == '%',
        venue_pattern_spec(input).last() == '%',
        forall|i: int| 0 <= i < venue_pattern_spec(input).len() - 1 ==> !(#[trigger] venue_pattern_spec(input)[i] == '%'
            && venue_pattern_spec(input)[i + 1] == '%'),
{
    reveal_strlit("%");
    let words = regex_replace_all_result(NON_WORD_PATTERN@, trim_seq(input), " "@);
    let ascii = replace_non_ascii_seq(collapse_ws_to(words, ','), '_');
    let r = replace_seq(ascii, ","@, "%"@);
    lemma_collapse_keeps_others("%"@ + r + "%"@);
    lemma_without_chars_concat("%"@ + r, "%"@, '%', '%');
    lemma_without_chars_concat("%"@, r, '%', '%');
    assert("%"@ =~= seq!['%']);
    lemma_without_chars_single('%', '%', '%');
    lemma_replace_commas(ascii);
    lemma_ascii_commas_letters(words);
    assert(without_chars("%"@ + r + "%"@, '%', '%') =~= without_chars(r, '%', '%'));
    let wrapped = "%"@ + r + "%"@;
    assert(wrapped[0] == '%' && wrapped.last() == '%');
    lemma_collapse_ends(wrapped, '%');
}

pub fn cinema_venue_input_parser(cinema_venue: &str) -> (r: String)
    ensures
        r@ == venue_pattern_spec(cinema_venue@),
{
    let trimmed = string_of(trim(chars_of(cinema_venue).as_slice()).as_slice());
    let words = regex_replace_all(NON_WORD_PATTERN, trimmed.as_str(), " ");
    let commas = collapse_whitespace_to(chars_of(words.as_str()).as_slice(), ',');
    let ascii = replace_non_ascii(commas.as_slice(), '_');
    let comma = chars_of(",");
    let percent = chars_of("%");
    proof {
        reveal_strlit(",");
    }
    let replaced = replace(ascii.as_slice(), comma.as_slice(), percent.as_slice());
    let mut wrapped = chars_of("%");
    push_all(&mut wrapped, replaced.as_slice());
    push_str(&mut wrapped, "%");
    string_of(collapse_repeated(wrapped.as_slice(), '%').as_slice())
}

/// Escape sequences of a terminal hyperlink (OSC 8).
pub const OSC_8_PREFIX: &'static str = "\u{1b}]8;;";
pub const OSC_8_SUFFIX: &'static str = "\u{1b}\\";

pub const HYPERLINK_MARKER_PREFIX: char = '\u{2060}';
pub const HYPERLINK_MARKER_ZERO: char = '\u{200C}';
pub const HYPERLINK_MARKER_ONE: char = '\u{200D}';
pub const HYPERLINK_MARKER_SUFFIX: char = '\u{2063}';

/// A link target that is safe to put in a terminal hyperlink: the trimmed URL, when it is an
/// `http(s)` URL without escape or line-break characters.
pub open spec fn sanitized_url(url: Seq<char>) -> Option<Seq<char>> {
    let t = trim_seq(url);
    if t.len() == 0 || t.contains('\u{1b}') || t.contains('\n') || t.contains('\r') {
        None
    } else if starts_with_seq(t, "https://"@) || starts_with_seq(t, "http://"@) {
        Some(t)
    } else {
        None
    }
}

pub fn sanitize_hyperlink_url(url: &str) -> (r: Option<String>)
    ensures
        opt_view(r) == sanitized_url(url@),
{
    let t = trim(chars_of(url).as_slice());
    if t.len() == 0 || contains_char(t.as_slice(), '\u{1b}') || contains_char(t.as_slice(), '\n')
        || contains_char(t.as_slice(), '\r') {
        return None;
    }
    let https = chars_of("https://");
    let http = chars_of("http://");
    if occurs_at_exec(t.as_slice(), https.as_slice(), 0) || occurs_at_exec(t.as_slice(), http.as_slice(), 0) {
        Some(string_of(t.as_slice()))
    } else {
        None
    }
}

pub open spec fn osc8_spec(value: Seq<char>, url: Seq<char>) -> Seq<char> {
    OSC_8_PREFIX@ + url + OSC_8_SUFFIX@ + value + OSC_8_PREFIX@ + OSC_8_SUFFIX@
}

pub fn render_osc8_hyperlink(play_time_value: &str, url: &str) -> (r: String)
    ensures
        r@ == osc8_spec(play_time_value@, url@),
{
    let mut v = chars_of(OSC_8_PREFIX);
    push_str(&mut v, url);
    push_str(&mut v, OSC_8_SUFFIX);
    push_str(&mut v, play_time_value);
    push_str(&mut v, OSC_8_PREFIX);
    push_str(&mut v, OSC_8_SUFFIX);
    string_of(v.as_slice())
}

pub open spec fn url_of(play_time: MoviePlayTime) -> Option<Seq<char>> {
    match play_time.url {
        Some(u) => sanitized_url(u@),
        None => None,
    }
}

/// A showing time, as a terminal hyperlink to its booking page when it has a safe one.
pub open spec fn play_time_spec(play_time: MoviePlayTime) -> Seq<char> {
    match url_of(play_time) {
        Some(u) => osc8_spec(play_time.value@, u),
        None => play_time.value@,
    }
}

pub fn render_play_time(play_time: &MoviePlayTime) -> (r: String)
    ensures
        r@ == play_time_spec(*play_time),
{
    let sanitized = match &play_time.url {
        Some(u) => sanitize_hyperlink_url(u.as_str()),
        None => None,
    };
    match sanitized {
        Some(u) => render_osc8_hyperlink(play_time.value.as_str(), u.as_str()),
        None => string_of(chars_of(play_time.value.as_str()).as_slice()),
    }
}

/// The binary digits of `index`, least significant first, as zero-width characters.
pub open spec fn marker_bits(index: nat) -> Seq<char>
    decreases index,
{
    if index == 0 {
        Seq::empty()
    } else {
        seq![if index % 2 == 0 { HYPERLINK_MARKER_ZERO } else { HYPERLINK_MARKER_ONE }] + marker_bits(index / 2)
    }
}

/// An invisible marker that stands for hyperlink number `index` while the table is laid out.
pub open spec fn marker_spec(index: nat) -> Seq<char> {
    seq![HYPERLINK_MARKER_PREFIX] + (if index == 0 {
        seq![HYPERLINK_MARKER_ZERO]
    } else {
        marker_bits(index)
    }) + seq![HYPERLINK_MARKER_SUFFIX]
}

pub fn render_hyperlink_marker(index: usize) -> (r: String)
    ensures
        r@ == marker_spec(index as nat),
{
    let mut marker: Vec<char> = Vec::new();
    marker.push(HYPERLINK_MARKER_PREFIX);
    if index == 0 {
        marker.push(HYPERLINK_MARKER_ZERO);
    } else {
        let mut remaining = index;
        while remaining > 0
            invariant
                marker@ + marker_bits(remaining as nat) == seq![HYPERLINK_MARKER_PREFIX] + marker_bits(index as nat),
            decreases remaining,
        {
            let ghost before = marker@;
            marker.push(if remaining % 2 == 0 {
                HYPERLINK_MARKER_ZERO
            } else {
                HYPERLINK_MARKER_ONE
            });
            assert(before + marker_bits(remaining as nat) =~= marker@ + marker_bits((remaining / 2) as nat));
            remaining = remaining / 2;
        }
        assert(marker@ =~= seq![HYPERLINK_MARKER_PREFIX] + marker_bits(index as nat));
    }
    marker.push(HYPERLINK_MARKER_SUFFIX);
    string_of(marker.as_slice())
}

proof fn lemma_marker_bits_injective(a: nat, b: nat)
    requires
        marker_bits(a) == marker_bits(b),
    ensures
        a == b,
    decreases a,
{
    if a == 0 || b == 0 {
        if a != b {
            assert(marker_bits(a).len() != marker_bits(b).len());
        }
    } else {
        let ba = marker_bits(a);
        let bb = marker_bits(b);
        assert(ba[0] == bb[0]);
        assert(ba.drop_first() =~= marker_bits(a / 2));
        assert(bb.drop_first() =~= marker_bits(b / 2));
        lemma_marker_bits_injective(a / 2, b / 2);
    }
}

proof fn lemma_marker_bits_last(a: nat)
    requires
        a > 0,
    ensures
        marker_bits(a).len() > 0,
        marker_bits(a).last() == HYPERLINK_MARKER_ONE,
    decreases a,
{
    let head = seq![if a % 2 == 0 { HYPERLINK_MARKER_ZERO } else { HYPERLINK_MARKER_ONE }];
    assert(marker_bits(a) == head + marker_bits(a / 2));
    if a / 2 > 0 {
        lemma_marker_bits_last(a / 2);
        assert((head + marker_bits(a / 2)).last() == marker_bits(a / 2).last());
    } else {
        assert(a == 1);
        assert(marker_bits(a / 2).len() == 0);
        assert(head + marker_bits(a / 2) =~= head);
    }
}

/// Distinct hyperlinks get distinct markers, so putting the links back cannot mix them up.
pub proof fn lemma_markers_distinct(a: nat, b: nat)
    requires
        a != b,
    ensures
        marker_spec(a) != marker_spec(b),
{
    let ma = marker_spec(a);
    let mb = marker_spec(b);
    let ia = if a == 0 { seq![HYPERLINK_MARKER_ZERO] } else { marker_bits(a) };
    let ib = if b == 0 { seq![HYPERLINK_MARKER_ZERO] } else { marker_bits(b) };
    if ma == mb {
        assert(ma.subrange(1, ma.len() - 1) =~= ia);
        assert(mb.subrange(1, mb.len() - 1) =~= ib);
        assert(ia == ib);
        if a == 0 {
            lemma_marker_bits_last(b);
            assert(ib.last() == HYPERLINK_MARKER_ONE);
        } else if b == 0 {
            lemma_marker_bits_last(a);
            assert(ia.last() == HYPERLINK_MARKER_ONE);
        } else {
            lemma_marker_bits_injective(a, b);
        }
    }
}

pub open spec fn placeholder_spec(value: Seq<char>, index: nat) -> Seq<char> {
    marker_spec(index) + value + marker_spec(index)
}

pub fn render_hyperlink_placeholder(play_time_value: &str, index: usize) -> (r: String)
    ensures
        r@ == placeholder_spec(play_time_value@, index as nat),
{
    let marker = render_hyperlink_marker(index);
    let mut v = chars_of(marker.as_str());
    push_str(&mut v, play_time_value);
    push_str(&mut v, marker.as_str());
    string_of(v.as_slice())
}

/// A placeholder laid out in the table, and the hyperlink that replaces it afterwards.
pub struct HyperlinkReplacement {
    pub placeholder: String,
    pub rendered: String,
}

pub open spec fn repl_view(r: HyperlinkReplacement) -> (Seq<char>, Seq<char>) {
    (r.placeholder@, r.rendered@)
}

pub open spec fn repl_views(rs: Seq<HyperlinkReplacement>) -> Seq<(Seq<char>, Seq<char>)> {
    rs.map_values(|r: HyperlinkReplacement| repl_view(r))
}

pub open spec fn is_linked(play_time: MoviePlayTime) -> bool {
    url_of(play_time) is Some
}

/// The number of linked times in `ts`.
pub open spec fn linked_count(ts: Seq<MoviePlayTime>) -> nat
    decreases ts.len(),
{
    if ts.len() == 0 {
        0
    } else {
        linked_count(ts.drop_last()) + if is_linked(ts.last()) {
            1nat
        } else {
            0nat
        }
    }
}

/// The table text of a showing time when `k` hyperlinks were placed before it.
pub open spec fn time_text(play_time: MoviePlayTime, k: nat) -> Seq<char> {
    if is_linked(play_time) {
        placeholder_spec(play_time.value@, k)
    } else {
        play_time.value@
    }
}

pub open spec fn times_texts(ts: Seq<MoviePlayTime>, k: nat) -> Seq<Seq<char>>
    decreases ts.len(),
{
    if ts.len() == 0 {
        Seq::empty()
    } else {
        times_texts(ts.drop_last(), k).push(time_text(ts.last(), k + linked_count(ts.drop_last())))
    }
}

/// The hyperlinks of `ts`, numbered from `k`.
pub open spec fn times_repls(ts: Seq<MoviePlayTime>, k: nat) -> Seq<(Seq<char>, Seq<char>)>
    decreases ts.len(),
{
    if ts.len() == 0 {
        Seq::empty()
    } else {
        let pre = times_repls(ts.drop_last(), k);
        if is_linked(ts.last()) {
            pre.push(
                (
                    placeholder_spec(ts.last().value@, k + linked_count(ts.drop_last())),
                    play_time_spec(ts.last()),
                ),
            )
        } else {
            pre
        }
    }
}

pub fn render_play_time_for_table(
    play_time: &MoviePlayTime,
    hyperlink_replacements: &mut Vec<HyperlinkReplacement>,
) -> (r: String)
    ensures
        r@ == time_text(*play_time, old(hyperlink_replacements)@.len()),
        repl_views(final(hyperlink_replacements)@) == repl_views(old(hyperlink_replacements)@) + if is_linked(*play_time) {
            seq![
                (
                    placeholder_spec(play_time.value@, old(hyperlink_replacements)@.len()),
                    play_time_spec(*play_time),
                ),
            ]
        } else {
            Seq::empty()
        },
{
    let sanitized = match &play_time.url {
        Some(u) => sanitize_hyperlink_url(u.as_str()),
        None => None,
    };
    if sanitized.is_none() {
        assert(repl_views(hyperlink_replacements@) =~= repl_views(hyperlink_replacements@) + Seq::<(Seq<char>, Seq<char>)>::empty());
        return string_of(chars_of(play_time.value.as_str()).as_slice());
    }
    let placeholder = render_hyperlink_placeholder(play_time.value.as_str(), hyperlink_replacements.len());
    let rendered = render_play_time(play_time);
    let result = string_of(chars_of(placeholder.as_str()).as_slice());
    let ghost before = hyperlink_replacements@;
    hyperlink_replacements.push(HyperlinkReplacement { placeholder, rendered });
    assert(repl_views(hyperlink_replacements@) =~= repl_views(before).push(repl_view(hyperlink_replacements@.last())));
    result
}

/// The cell text of one format and language: its label line, then its times.
pub open spec fn details_text(d: MoviePlayDetails, k: nat) -> Seq<char> {
    "["@ + d.format@ + ", "@ + d.play_language@ + "]:\n"@ + join_seq(times_texts(d.play_times@, k), " "@)
}

#[verifier::spinoff_prover]
pub fn render_play_details(
    play_details: &MoviePlayDetails,
    hyperlink_replacements: &mut Vec<HyperlinkReplacement>,
) -> (r: String)
    ensures
        r@ == details_text(*play_details, old(hyperlink_replacements)@.len()),
        repl_views(final(hyperlink_replacements)@) == repl_views(old(hyperlink_replacements)@)
            + times_repls(play_details.play_times@, old(hyperlink_replacements)@.len()),
        final(hyperlink_replacements)@.len() == old(hyperlink_replacements)@.len() + linked_count(play_details.play_times@),
{
    let ghost k = hyperlink_replacements@.len();
    let ghost start = repl_views(hyperlink_replacements@);
    let ts = &play_details.play_times;
    let mut texts: Vec<Vec<char>> = Vec::new();
    let mut i: usize = 0;
    while i < ts.len()
        invariant
            i <= ts@.len(),
            ts == &play_details.play_times,
            views_of(texts@) == times_texts(ts@.subrange(0, i as int), k),
            repl_views(hyperlink_replacements@) == start + times_repls(ts@.subrange(0, i as int), k),
            hyperlink_replacements@.len() == k + linked_count(ts@.subrange(0, i as int)),
        decreases ts.len() - i,
    {
        let ghost pre = ts@.subrange(0, i as int);
        assert(ts@.subrange(0, i + 1).drop_last() =~= pre);
        assert(ts@.subrange(0, i + 1).last() == ts@[i as int]);
        let t = render_play_time_for_table(&ts[i], hyperlink_replacements);
        let ghost before_texts = texts@;
        texts.push(chars_of(t.as_str()));
        assert(views_of(texts@) =~= views_of(before_texts).push(t@));
        i = i + 1;
    }
    assert(ts@.subrange(0, ts@.len() as int) =~= ts@);
    let mut v = chars_of("[");
    push_str(&mut v, play_details.format.as_str());
    push_str(&mut v, ", ");
    push_str(&mut v, play_details.play_language.as_str());
    push_str(&mut v, "]:\n");
    let sep = chars_of(" ");
    let joined = join(&texts, sep.as_slice());
    push_all(&mut v, joined.as_slice());
    string_of(v.as_slice())
}


/// The cell text of all formats and languages of a movie, `k` hyperlinks placed before them.
pub open spec fn details_linked(ds: Seq<MoviePlayDetails>) -> nat
    decreases ds.len(),
{
    if ds.len() == 0 {
        0
    } else {
        details_linked(ds.drop_last()) + linked_count(ds.last().play_times@)
    }
}

pub open spec fn details_texts(ds: Seq<MoviePlayDetails>, k: nat) -> Seq<Seq<char>>
    decreases ds.len(),
{
    if ds.len() == 0 {
        Seq::empty()
    } else {
        details_texts(ds.drop_last(), k).push(details_text(ds.last(), k + details_linked(ds.drop_last())))
    }
}

pub open spec fn details_repls(ds: Seq<MoviePlayDetails>, k: nat) -> Seq<(Seq<char>, Seq<char>)>
    decreases ds.len(),
{
    if ds.len() == 0 {
        Seq::empty()
    } else {
        details_repls(ds.drop_last(), k) + times_repls(ds.last().play_times@, k + details_linked(ds.drop_last()))
    }
}

/// The rating and summary cells of the movie titled `title`: those of the first entry under
/// that title, or a zero rating and the missing-data label.
pub open spec fn rating_cells(ratings: Seq<(String, TmdbMovieDetails)>, title: Seq<char>) -> Seq<Seq<char>>
    decreases ratings.len(),
{
    if ratings.len() == 0 {
        seq!["0.0/10"@, MISSING_DATA_LABEL@]
    } else if ratings[0].0@ == title {
        seq![ratings[0].1.rating@, ratings[0].1.summary@]
    } else {
        rating_cells(ratings.drop_first(), title)
    }
}

/// The rating and summary cells of the movie titled `title` come from a ratings entry whose
/// key is that title (the first such entry), and are the zero rating with the missing-data
/// label only when no entry has that title.
pub proof fn lemma_rating_cells_by_title(ratings: Seq<(String, TmdbMovieDetails)>, title: Seq<char>) -> (found: Option<int>)
    ensures
        match found {
            Some(i) => {
                &&& 0 <= i < ratings.len()
                &&& ratings[i].0@ == title
                &&& forall|j: int| 0 <= j < i ==> (#[trigger] ratings[j]).0@ != title
                &&& rating_cells(ratings, title) == seq![ratings[i].1.rating@, ratings[i].1.summary@]
            },
            None => {
                &&& forall|j: int| 0 <= j < ratings.len() ==> (#[trigger] ratings[j]).0@ != title
                &&& rating_cells(ratings, title) == seq!["0.0/10"@, MISSING_DATA_LABEL@]
            },
        },
    decreases ratings.len(),
{
    if ratings.len() == 0 {
        None
    } else if ratings[0].0@ == title {
        Some(0)
    } else {
        let rest = ratings.drop_first();
        let f = lemma_rating_cells_by_title(rest, title);
        match f {
            Some(i) => {
                assert forall|j: int| 0 <= j < i + 1 implies (#[trigger] ratings[j]).0@ != title by {
                    if j > 0 {
                        assert(ratings[j] == rest[j - 1]);
                    }
                }
                assert(ratings[i + 1] == rest[i]);
                Some(i + 1)
            },
            None => {
                assert forall|j: int| 0 <= j < ratings.len() implies (#[trigger] ratings[j]).0@ != title by {
                    if j > 0 {
                        assert(ratings[j] == rest[j - 1]);
                    }
                }
                None
            },
        }
    }
}

/// In a table with ratings, a movie's row ends with the rating and summary of the ratings
/// entry under its title, or with the zero rating and the missing-data label.
pub proof fn lemma_movie_row_ratings(m: Repertoire, k: nat, ratings: Seq<(String, TmdbMovieDetails)>)
    requires
        ratings.len() > 0,
    ensures
        movie_row(m, k, ratings).len() == 7,
        movie_row(m, k, ratings)[0] == m.title@,
        seq![movie_row(m, k, ratings)[5], movie_row(m, k, ratings)[6]] == rating_cells(ratings, m.title@),
{
    lemma_rating_cells_by_title(ratings, m.title@);
    let row = movie_row(m, k, ratings);
    assert(seq![row[5], row[6]] =~= rating_cells(ratings, m.title@));
}

/// The column headers of the repertoire table.
pub open spec fn repertoire_headers(show_ratings: bool) -> Seq<Seq<char>> {
    let base = seq!["Tytuł"@, "Gatunki"@, "Długość"@, "Język oryg."@, "Seanse"@];
    if show_ratings {
        base + seq!["Ocena z TMDB"@, "Opis z TMDB"@]
    } else {
        base
    }
}

/// The row of a movie when `k` hyperlinks were placed before it.
pub open spec fn movie_row(m: Repertoire, k: nat, ratings: Seq<(String, TmdbMovieDetails)>) -> Seq<Seq<char>> {
    let base = seq![
        m.title@,
        m.genres@,
        m.play_length@,
        m.original_language@,
        join_seq(details_texts(m.play_details@, k), "\n"@),
    ];
    if ratings.len() > 0 {
        base + rating_cells(ratings, m.title@)
    } else {
        base
    }
}

pub open spec fn movies_linked(ms: Seq<Repertoire>) -> nat
    decreases ms.len(),
{
    if ms.len() == 0 {
        0
    } else {
        movies_linked(ms.drop_last()) + details_linked(ms.last().play_details@)
    }
}

pub open spec fn movie_rows(ms: Seq<Repertoire>, k: nat, ratings: Seq<(String, TmdbMovieDetails)>) -> Seq<Seq<Seq<char>>>
    decreases ms.len(),
{
    if ms.len() == 0 {
        Seq::empty()
    } else {
        movie_rows(ms.drop_last(), k, ratings).push(movie_row(ms.last(), k + movies_linked(ms.drop_last()), ratings))
    }
}

pub open spec fn movies_repls(ms: Seq<Repertoire>, k: nat) -> Seq<(Seq<char>, Seq<char>)>
    decreases ms.len(),
{
    if ms.len() == 0 {
        Seq::empty()
    } else {
        movies_repls(ms.drop_last(), k) + details_repls(ms.last().play_details@, k + movies_linked(ms.drop_last()))
    }
}

/// Every placeholder replaced in turn by its hyperlink.
pub open spec fn apply_repls(s: Seq<char>, rs: Seq<(Seq<char>, Seq<char>)>) -> Seq<char>
    decreases rs.len(),
{
    if rs.len() == 0 {
        s
    } else {
        replace_seq(apply_repls(s, rs.drop_last()), rs.last().0, rs.last().1)
    }
}

pub open spec fn placeholders_nonempty(rs: Seq<(Seq<char>, Seq<char>)>) -> bool {
    forall|i: int| 0 <= i < rs.len() ==> (#[trigger] rs[i]).0.len() > 0
}

proof fn lemma_times_placeholders(ts: Seq<MoviePlayTime>, k: nat)
    ensures
        placeholders_nonempty(times_repls(ts, k)),
    decreases ts.len(),
{
    if ts.len() > 0 {
        lemma_times_placeholders(ts.drop_last(), k);
    }
}

proof fn lemma_details_placeholders(ds: Seq<MoviePlayDetails>, k: nat)
    ensures
        placeholders_nonempty(details_repls(ds, k)),
    decreases ds.len(),
{
    if ds.len() > 0 {
        lemma_details_placeholders(ds.drop_last(), k);
        lemma_times_placeholders(ds.last().play_times@, k + details_linked(ds.drop_last()));
        let a = details_repls(ds.drop_last(), k);
        let b = times_repls(ds.last().play_times@, k + details_linked(ds.drop_last()));
        assert forall|i: int| 0 <= i < (a + b).len() implies (#[trigger] (a + b)[i]).0.len() > 0 by {
            if i < a.len() {
                assert((a + b)[i] == a[i]);
            } else {
                assert((a + b)[i] == b[i - a.len()]);
            }
        }
    }
}

proof fn lemma_movies_placeholders(ms: Seq<Repertoire>, k: nat)
    ensures
        placeholders_nonempty(movies_repls(ms, k)),
    decreases ms.len(),
{
    if ms.len() > 0 {
        lemma_movies_placeholders(ms.drop_last(), k);
        lemma_details_placeholders(ms.last().play_details@, k + movies_linked(ms.drop_last()));
        let a = movies_repls(ms.drop_last(), k);
        let b = details_repls(ms.last().play_details@, k + movies_linked(ms.drop_last()));
        assert forall|i: int| 0 <= i < (a + b).len() implies (#[trigger] (a + b)[i]).0.len() > 0 by {
            if i < a.len() {
                assert((a + b)[i] == a[i]);
            } else {
                assert((a + b)[i] == b[i - a.len()]);
            }
        }
    }
}

/// The heading line above the repertoire table.
pub open spec fn repertoire_heading(meta: RepertoireCliTableMetadata) -> Seq<char> {
    "Repertuar dla "@ + meta.chain_display_name@ + " ("@ + meta.cinema_venue_name@ + ") na dzień: "@
        + meta.repertoire_date@ + "\n"@
}

/// The repertoire as printed, the table laid out within `width` columns when one is given.
pub open spec fn repertoire_table_spec(
    ms: Seq<Repertoire>,
    meta: RepertoireCliTableMetadata,
    ratings: Seq<(String, TmdbMovieDetails)>,
    width: Option<u16>,
) -> Seq<char> {
    if ms.len() == 0 {
        "Brak repertuaru do wyświetlenia."@
    } else {
        apply_repls(
            repertoire_heading(meta) + comfy_table_text(
                repertoire_headers(ratings.len() > 0),
                movie_rows(ms, 0, ratings),
                width,
            ),
            movies_repls(ms, 0),
        )
    }
}

/// The cell of a movie's showings: one block per format and language, one per line.
fn render_details_cell(details: &Vec<MoviePlayDetails>, hyperlink_replacements: &mut Vec<HyperlinkReplacement>) -> (r: String)
    ensures
        r@ == join_seq(details_texts(details@, old(hyperlink_replacements)@.len()), "\n"@),
        repl_views(final(hyperlink_replacements)@) == repl_views(old(hyperlink_replacements)@)
            + details_repls(details@, old(hyperlink_replacements)@.len()),
        final(hyperlink_replacements)@.len() == old(hyperlink_replacements)@.len() + details_linked(details@),
{
    let ghost k = hyperlink_replacements@.len();
    let ghost start = repl_views(hyperlink_replacements@);
    let mut texts: Vec<Vec<char>> = Vec::new();
    let mut i: usize = 0;
    while i < details.len()
        invariant
            i <= details@.len(),
            views_of(texts@) == details_texts(details@.subrange(0, i as int), k),
            repl_views(hyperlink_replacements@) == start + details_repls(details@.subrange(0, i as int), k),
            hyperlink_replacements@.len() == k + details_linked(details@.subrange(0, i as int)),
        decreases details.len() - i,
    {
        let ghost pre = details@.subrange(0, i as int);
        assert(details@.subrange(0, i + 1).drop_last() =~= pre);
        assert(details@.subrange(0, i + 1).last() == details@[i as int]);
        let t = render_play_details(&details[i], hyperlink_replacements);
        let ghost before_texts = texts@;
        texts.push(chars_of(t.as_str()));
        assert(views_of(texts@) =~= views_of(before_texts).push(t@));
        i = i + 1;
    }
    assert(details@.subrange(0, details@.len() as int) =~= details@);
    let sep = chars_of("\n");
    string_of(join(&texts, sep.as_slice()).as_slice())
}

/// The rating and summary shown for the movie titled `title`.
fn rating_cells_for(ratings: &Vec<(String, TmdbMovieDetails)>, title: &String) -> (r: (String, String))
    ensures
        seq![r.0@, r.1@] == rating_cells(ratings@, title@),
{
    let mut i: usize = 0;
    assert(ratings@.subrange(0, ratings@.len() as int) =~= ratings@);
    while i < ratings.len()
        invariant
            i <= ratings@.len(),
            rating_cells(ratings@, title@) == rating_cells(ratings@.subrange(i as int, ratings@.len() as int), title@),
        decreases ratings.len() - i,
    {
        let ghost rest = ratings@.subrange(i as int, ratings@.len() as int);
        assert(rest[0] == ratings@[i as int]);
        if ratings[i].0 == *title {
            return (ratings[i].1.rating.clone(), ratings[i].1.summary.clone());
        }
        assert(rest.drop_first() =~= ratings@.subrange(i + 1, ratings@.len() as int));
        i = i + 1;
    }
    ("0.0/10".to_owned(), MISSING_DATA_LABEL.to_owned())
}

/// The row of one movie of the repertoire table.
fn render_movie_row(
    movie: &Repertoire,
    ratings: &Vec<(String, TmdbMovieDetails)>,
    hyperlink_replacements: &mut Vec<HyperlinkReplacement>,
) -> (r: Vec<String>)
    ensures
        r.deep_view() == movie_row(*movie, old(hyperlink_replacements)@.len(), ratings@),
        repl_views(final(hyperlink_replacements)@) == repl_views(old(hyperlink_replacements)@)
            + details_repls(movie.play_details@, old(hyperlink_replacements)@.len()),
        final(hyperlink_replacements)@.len() == old(hyperlink_replacements)@.len() + details_linked(movie.play_details@),
{
    let details = render_details_cell(&movie.play_details, hyperlink_replacements);
    let mut row: Vec<String> = Vec::new();
    row.push(movie.title.clone());
    row.push(movie.genres.clone());
    row.push(movie.play_length.clone());
    row.push(movie.original_language.clone());
    row.push(details);
    if ratings.len() > 0 {
        let (rating, summary) = rating_cells_for(ratings, &movie.title);
        row.push(rating);
        row.push(summary);
    }
    assert(row.deep_view() =~= movie_row(*movie, old(hyperlink_replacements)@.len(), ratings@));
    row
}

/// Puts the hyperlinks back in place of their placeholders.
fn apply_hyperlink_replacements(rendered_table: String, hyperlink_replacements: &Vec<HyperlinkReplacement>) -> (r: String)
    requires
        placeholders_nonempty(repl_views(hyperlink_replacements@)),
    ensures
        r@ == apply_repls(rendered_table@, repl_views(hyperlink_replacements@)),
{
    let mut text = chars_of(rendered_table.as_str());
    let mut i: usize = 0;
    while i < hyperlink_replacements.len()
        invariant
            i <= hyperlink_replacements@.len(),
            placeholders_nonempty(repl_views(hyperlink_replacements@)),
            text@ == apply_repls(rendered_table@, repl_views(hyperlink_replacements@.subrange(0, i as int))),
        decreases hyperlink_replacements.len() - i,
    {
        let ghost views = repl_views(hyperlink_replacements@);
        assert(views[i as int] == repl_view(hyperlink_replacements@[i as int]));
        let ghost pre = repl_views(hyperlink_replacements@.subrange(0, i + 1));
        assert(pre.drop_last() =~= repl_views(hyperlink_replacements@.subrange(0, i as int)));
        assert(pre.last() == views[i as int]);
        let p = chars_of(hyperlink_replacements[i].placeholder.as_str());
        let r = chars_of(hyperlink_replacements[i].rendered.as_str());
        text = replace(text.as_slice(), p.as_slice(), r.as_slice());
        i = i + 1;
    }
    assert(hyperlink_replacements@.subrange(0, hyperlink_replacements@.len() as int) =~= hyperlink_replacements@);
    string_of(text.as_slice())
}

fn repertoire_header_row(show_ratings: bool) -> (r: Vec<String>)
    ensures
        r.deep_view() == repertoire_headers(show_ratings),
{
    let mut headers: Vec<String> = Vec::new();
    headers.push("Tytuł".to_owned());
    headers.push("Gatunki".to_owned());
    headers.push("Długość".to_owned());
    headers.push("Język oryg.".to_owned());
    headers.push("Seanse".to_owned());
    if show_ratings {
        headers.push("Ocena z TMDB".to_owned());
        headers.push("Opis z TMDB".to_owned());
    }
    assert(headers.deep_view() =~= repertoire_headers(show_ratings));
    headers
}

/// The repertoire table, laid out within `table_width` columns when a width is given.
pub fn render_repertoire_table_with_width(
    repertoire: &[Repertoire],
    table_metadata: &RepertoireCliTableMetadata,
    ratings: &Vec<(String, TmdbMovieDetails)>,
    table_width: Option<u16>,
) -> (r: String)
    ensures
        r@ == repertoire_table_spec(repertoire@, *table_metadata, ratings@, table_width),
{
    if repertoire.len() == 0 {
        return "Brak repertuaru do wyświetlenia.".to_owned();
    }
    let headers = repertoire_header_row(ratings.len() > 0);
    let mut hyperlink_replacements: Vec<HyperlinkReplacement> = Vec::new();
    let mut rows: Vec<Vec<String>> = Vec::new();
    let mut i: usize = 0;
    while i < repertoire.len()
        invariant
            i <= repertoire@.len(),
            rows.deep_view() == movie_rows(repertoire@.subrange(0, i as int), 0, ratings@),
            repl_views(hyperlink_replacements@) == movies_repls(repertoire@.subrange(0, i as int), 0),
            hyperlink_replacements@.len() == movies_linked(repertoire@.subrange(0, i as int)),
        decreases repertoire.len() - i,
    {
        let ghost pre = repertoire@.subrange(0, i as int);
        assert(repertoire@.subrange(0, i + 1).drop_last() =~= pre);
        assert(repertoire@.subrange(0, i + 1).last() == repertoire@[i as int]);
        let row = render_movie_row(&repertoire[i], ratings, &mut hyperlink_replacements);
        let ghost before_rows = rows.deep_view();
        rows.push(row);
        assert(rows.deep_view() =~= before_rows.push(row.deep_view()));
        i = i + 1;
    }
    assert(repertoire@.subrange(0, repertoire@.len() as int) =~= repertoire@);
    let table = render_table(&headers, &rows, table_width);
    let mut text: Vec<char> = Vec::new();
    push_str(&mut text, "Repertuar dla ");
    push_str(&mut text, table_metadata.chain_display_name.as_str());
    push_str(&mut text, " (");
    push_str(&mut text, table_metadata.cinema_venue_name.as_str());
    push_str(&mut text, ") na dzień: ");
    push_str(&mut text, table_metadata.repertoire_date.as_str());
    push_str(&mut text, "\n");
    push_str(&mut text, table.as_str());
    proof {
        lemma_movies_placeholders(repertoire@, 0);
    }
    apply_hyperlink_replacements(string_of(text.as_slice()), &hyperlink_replacements)
}

/// The repertoire table, laid out for the terminal on standard output.
pub fn render_repertoire_table(
    repertoire: &[Repertoire],
    table_metadata: &RepertoireCliTableMetadata,
    ratings: &Vec<(String, TmdbMovieDetails)>,
) -> (r: String)
    ensures
        exists|width: Option<u16>| r@ == repertoire_table_spec(repertoire@, *table_metadata, ratings@, width),
{
    let width = terminal_table_width();
    render_repertoire_table_with_width(repertoire, table_metadata, ratings, width)
}

/// The rows of the venues table: name and id of each venue.
pub open spec fn venue_rows(venues: Seq<CinemaVenue>) -> Seq<Seq<Seq<char>>> {
    Seq::new(venues.len(), |i: int| seq![venues[i].venue_name@, venues[i].venue_id@])
}

pub open spec fn venue_headers() -> Seq<Seq<char>> {
    seq!["venue_name"@, "venue_id"@]
}

/// The venues of a chain as printed, the table laid out within `width` columns when one is
/// given.
pub open spec fn venues_table_spec(venues: Seq<CinemaVenue>, chain_display_name: Seq<char>, width: Option<u16>) -> Seq<char> {
    if venues.len() == 0 {
        "Brak kin tej sieci w bazie danych."@
    } else {
        "Znalezione lokale sieci "@ + chain_display_name + "\n"@ + comfy_table_text(venue_headers(), venue_rows(venues), width)
    }
}

/// The venues table, laid out within `table_width` columns when a width is given.
pub fn render_venues_table_with_width(venues: &[CinemaVenue], chain_display_name: &str, table_width: Option<u16>) -> (r: String)
    ensures
        r@ == venues_table_spec(venues@, chain_display_name@, table_width),
{
    if venues.len() == 0 {
        return "Brak kin tej sieci w bazie danych.".to_owned();
    }
    let mut headers: Vec<String> = Vec::new();
    headers.push("venue_name".to_owned());
    headers.push("venue_id".to_owned());
    assert(headers.deep_view() =~= venue_headers());
    let mut rows: Vec<Vec<String>> = Vec::new();
    let mut i: usize = 0;
    while i < venues.len()
        invariant
            i <= venues@.len(),
            rows.deep_view() =~= venue_rows(venues@.subrange(0, i as int)),
        decreases venues.len() - i,
    {
        let mut row: Vec<String> = Vec::new();
        row.push(venues[i].venue_name.clone());
        row.push(venues[i].venue_id.clone());
        let ghost before = rows.deep_view();
        rows.push(row);
        assert(rows.deep_view() =~= before.push(row.deep_view()));
        assert(row.deep_view() =~= seq![venues@[i as int].venue_name@, venues@[i as int].venue_id@]);
        assert(rows.deep_view() =~= venue_rows(venues@.subrange(0, i + 1)));
        i = i + 1;
    }
    assert(venues@.subrange(0, venues@.len() as int) =~= venues@);
    let table = render_table(&headers, &rows, table_width);
    let mut text: Vec<char> = Vec::new();
    push_str(&mut text, "Znalezione lokale sieci ");
    push_str(&mut text, chain_display_name);
    push_str(&mut text, "\n");
    push_str(&mut text, table.as_str());
    string_of(text.as_slice())
}

/// The venues table, laid out for the terminal on standard output.
pub fn render_venues_table(venues: &[CinemaVenue], chain_display_name: &str) -> (r: String)
    ensures
        exists|width: Option<u16>| r@ == venues_table_spec(venues@, chain_display_name@, width),
{
    let width = terminal_table_width();
    render_venues_table_with_width(venues, chain_display_name, width)
}


/// A day given by a word rather than a date.
#[derive(Debug, Clone, Copy, PartialEq, Eq, Structural)]
pub enum DateKeyword {
    Today,
    Tomorrow,
}

/// Case folding for the day words: the letters that lowercase to a letter of those words.
pub open spec fn fold_keyword_char(c: char) -> char {
    if c == 'Ś' {
        'ś'
    } else {
        lower_char(c)
    }
}

/// The day word that `text` is, case aside (`dziś`, `dzis`, `dzisiaj`, `today`, `jutro`,
/// `tomorrow`).
pub open spec fn date_keyword_spec(text: Seq<char>) -> Option<DateKeyword> {
    let folded = text.map_values(|c: char| fold_keyword_char(c));
    if folded == "dziś"@ || folded == "dzis"@ || folded == "dzisiaj"@ || folded == "today"@ {
        Some(DateKeyword::Today)
    } else if folded == "jutro"@ || folded == "tomorrow"@ {
        Some(DateKeyword::Tomorrow)
    } else {
        None
    }
}

proof fn lemma_keyword_fold_is_lowercase(text: Seq<char>, word: Seq<char>)
    requires
        lower_seq(text) == word,
        forall|i: int| 0 <= i < word.len() ==> #[trigger] word[i] != 'Ś',
    ensures
        text.map_values(|c: char| fold_keyword_char(c)) == word,
{
    let folded = text.map_values(|c: char| fold_keyword_char(c));
    assert forall|i: int| 0 <= i < text.len() implies #[trigger] folded[i] == word[i] by {
        assert(lower_seq(text)[i] == lower_char(text[i]));
        if text[i] == 'Ś' {
            assert(lower_char(text[i]) == 'Ś');
        }
    }
    assert(folded =~= word);
}

/// The day words, in any ASCII case: `jutro` and `tomorrow` stand for tomorrow, and `dziś`,
/// `dzis`, `dzisiaj` and `today` for today.
pub proof fn lemma_day_words(text: Seq<char>)
    ensures
        lower_seq(text) == "jutro"@ || lower_seq(text) == "tomorrow"@ ==> date_keyword_spec(text) == Some(DateKeyword::Tomorrow),
        lower_seq(text) == "dziś"@ || lower_seq(text) == "dzis"@ || lower_seq(text) == "dzisiaj"@ || lower_seq(text) == "today"@
            ==> date_keyword_spec(text) == Some(DateKeyword::Today),
{
    reveal_strlit("jutro");
    reveal_strlit("tomorrow");
    reveal_strlit("dziś");
    reveal_strlit("dzis");
    reveal_strlit("dzisiaj");
    reveal_strlit("today");
    let w = lower_seq(text);
    if w == "jutro"@ || w == "tomorrow"@ || w == "dziś"@ || w == "dzis"@ || w == "dzisiaj"@ || w == "today"@ {
        lemma_keyword_fold_is_lowercase(text, w);
    }
    if w == "jutro"@ {
        assert(w[0] != "today"@[0]);
        assert(w != "dziś"@ && w != "dzis"@ && w != "dzisiaj"@ && w != "today"@);
    } else if w == "tomorrow"@ {
        assert(w != "dziś"@ && w != "dzis"@ && w != "dzisiaj"@ && w != "today"@);
    }
}

/// The day word that `text` is, after trimming and case aside.
pub fn date_keyword(text: &str) -> (r: Option<DateKeyword>)
    ensures
        r == date_keyword_spec(trim_seq(text@)),
{
    let t = trim(chars_of(text).as_slice());
    let mut folded: Vec<char> = Vec::new();
    let mut i: usize = 0;
    while i < t.len()
        invariant
            i <= t@.len(),
            folded@ == t@.subrange(0, i as int).map_values(|c: char| fold_keyword_char(c)),
        decreases t.len() - i,
    {
        let c = t[i];
        let f = if c == 'Ś' {
            'ś'
        } else {
            to_ascii_lowercase_char(c)
        };
        folded.push(f);
        assert(t@.subrange(0, i + 1) =~= t@.subrange(0, i as int).push(c));
        assert(folded@ =~= t@.subrange(0, i + 1).map_values(|c: char| fold_keyword_char(c)));
        i = i + 1;
    }
    assert(t@.subrange(0, t@.len() as int) =~= t@);
    let f = folded.as_slice();
    if eq_str(f, "dziś") || eq_str(f, "dzis") || eq_str(f, "dzisiaj") || eq_str(f, "today") {
        Some(DateKeyword::Today)
    } else if eq_str(f, "jutro") || eq_str(f, "tomorrow") {
        Some(DateKeyword::Tomorrow)
    } else {
        None
    }
}

/// What `chrono` makes of `text` read with the date format `format`: the date in its own
/// `YYYY-MM-DD` form, or nothing when `text` is not a date in that format.
pub uninterp spec fn chrono_date(text: Seq<char>, format: Seq<char>) -> Option<Seq<char>>;

/// `chrono::NaiveDate::parse_from_str(text, format)`, the date written back with its
/// `Display`. The contract names the result; chrono's parser is not restated.
#[verifier::external_body]
fn parse_date(text: &str, format: &str) -> (r: Option<String>)
    ensures
        opt_view(r) == chrono_date(text@, format@),
{
    match chrono::NaiveDate::parse_from_str(text, format) {
        Ok(date) => Some(date.to_string()),
        Err(_) => None,
    }
}

/// The date that `text` gives as `YYYY-MM-DD`, `DD-MM-YYYY` or `DD.MM.YYYY`, tried in that
/// order.
pub open spec fn explicit_date_spec(text: Seq<char>) -> Option<Seq<char>> {
    match chrono_date(text, "%Y-%m-%d"@) {
        Some(d) => Some(d),
        None => match chrono_date(text, "%d-%m-%Y"@) {
            Some(d) => Some(d),
            None => chrono_date(text, "%d.%m.%Y"@),
        },
    }
}

fn parse_explicit_date(text: &str) -> (r: Option<String>)
    ensures
        opt_view(r) == explicit_date_spec(text@),
{
    match parse_date(text, "%Y-%m-%d") {
        Some(d) => Some(d),
        None => match parse_date(text, "%d-%m-%Y") {
            Some(d) => Some(d),
            None => parse_date(text, "%d.%m.%Y"),
        },
    }
}

/// The value of an ASCII digit.
pub open spec fn digit_value(c: char) -> int {
    (c as int) - ('0' as int)
}

/// A date as `chrono` writes a `NaiveDate` with `Display`: the year in at least four digits
/// (signed outside 0..=9999), then `-MM-DD` with a month from 1 to 12 and a day from 1 to 31.
pub open spec fn is_date_text(s: Seq<char>) -> bool {
    let n = s.len() as int;
    &&& n >= 10
    &&& s[n - 6] == '-'
    &&& s[n - 3] == '-'
    &&& forall|i: int| 0 <= i < n - 6 ==> is_ascii_digit_spec(#[trigger] s[i]) || (i == 0 && (s[i] == '+' || s[i] == '-'))
    &&& forall|i: int| n - 6 < i < n && i != n - 3 ==> is_ascii_digit_spec(#[trigger] s[i])
    &&& 1 <= digit_value(s[n - 5]) * 10 + digit_value(s[n - 4]) <= 12
    &&& 1 <= digit_value(s[n - 2]) * 10 + digit_value(s[n - 1]) <= 31
}

/// `chrono::Local::now().date_naive()` written with its `Display`: today's date on this
/// machine's clock and time zone. Which date it is rests on the clock, so the contract says
/// only that it is written as a date.
#[verifier::external_body]
fn local_today() -> (r: String)
    ensures
        is_date_text(r@),
{
    chrono::Local::now().date_naive().to_string()
}

/// The calendar date after the one that `date` reads as (chrono's `FromStr` for
/// `NaiveDate`, which reads the form its `Display` writes), written with `Display`; nothing
/// when `date` is not such a date or is the last date chrono represents.
pub uninterp spec fn chrono_next_day(date: Seq<char>) -> Option<Seq<char>>;

/// `date.parse::<chrono::NaiveDate>()`, then `NaiveDate::succ_opt`, written back with
/// `Display`. The contract names the result; chrono's calendar is not restated.
#[verifier::external_body]
fn next_day(date: &str) -> (r: Option<String>)
    ensures
        opt_view(r) == chrono_next_day(date@),
{
    match date.parse::<chrono::NaiveDate>() {
        Ok(day) => match day.succ_opt() {
            Some(next) => Some(next.to_string()),
            None => None,
        },
        Err(_) => None,
    }
}

/// The date that a day word stands for, given today's date: today itself, or the day after.
/// Nothing when the day after cannot be had.
pub fn keyword_date(keyword: DateKeyword, today: &str) -> (r: Option<String>)
    ensures
        keyword == DateKeyword::Today ==> (r matches Some(s) && s@ == today@),
        keyword == DateKeyword::Tomorrow ==> opt_view(r) == chrono_next_day(today@),
{
    match keyword {
        DateKeyword::Today => Some(string_of(chars_of(today).as_slice())),
        DateKeyword::Tomorrow => next_day(today),
    }
}

/// The message when the day after today cannot be had.
pub open spec fn next_day_error_message() -> Seq<char> {
    "Nie udało się wyznaczyć jutrzejszej daty."@
}

/// The message for a date that is neither a day word nor a `YYYY-MM-DD` date.
pub open spec fn date_error_message(trimmed: Seq<char>) -> Seq<char> {
    "Data: "@ + trimmed + " nie jest we wspieranym formacie: YYYY-MM-DD | dzis | jutro | itp..."@
}

/// The date given as `trimmed`, from what the date parser made of it: the parsed date, or the
/// error that names the input.
pub fn explicit_date_result(trimmed: &str, parsed: Option<String>) -> (r: AppResult<String>)
    ensures
        match parsed {
            Some(d) => r == Ok::<String, AppError>(d),
            None => r matches Err(AppError::Message(m)) && m@ == date_error_message(trimmed@),
        },
{
    match parsed {
        Some(d) => Ok(d),
        None => {
            let mut v: Vec<char> = Vec::new();
            push_str(&mut v, "Data: ");
            push_str(&mut v, trimmed);
            push_str(&mut v, " nie jest we wspieranym formacie: YYYY-MM-DD | dzis | jutro | itp...");
            Err(AppError::Message(string_of(v.as_slice())))
        },
    }
}

/// The date that the user typed, as `YYYY-MM-DD`: for a day word, today's date read once from
/// the clock, or the day after it; else the trimmed input read as a `YYYY-MM-DD`, `DD-MM-YYYY`
/// or `DD.MM.YYYY` date.
pub fn date_input_parser(date: &str) -> (r: AppResult<String>)
    ensures
        match date_keyword_spec(trim_seq(date@)) {
            Some(DateKeyword::Today) => r matches Ok(s) && is_date_text(s@),
            Some(DateKeyword::Tomorrow) => match r {
                Ok(s) => exists|today: Seq<char>| is_date_text(today) && #[trigger] chrono_next_day(today) == Some(s@),
                Err(e) => (e matches AppError::Message(m) && m@ == next_day_error_message())
                    && exists|today: Seq<char>| is_date_text(today) && #[trigger] chrono_next_day(today) is None,
            },
            None => match explicit_date_spec(trim_seq(date@)) {
                Some(d) => r matches Ok(s) && s@ == d,
                None => r matches Err(AppError::Message(m)) && m@ == date_error_message(trim_seq(date@)),
            },
        },
{
    match date_keyword(date) {
        Some(keyword) => {
            let today = local_today();
            match keyword_date(keyword, today.as_str()) {
                Some(day) => Ok(day),
                None => Err(AppError::Message(string_of(chars_of("Nie udało się wyznaczyć jutrzejszej daty.").as_slice()))),
            }
        },
        None => {
            let trimmed = string_of(trim(chars_of(date).as_slice()).as_slice());
            let parsed = parse_explicit_date(trimmed.as_str());
            explicit_date_result(trimmed.as_str(), parsed)
        },
    }
}
} // verus!
