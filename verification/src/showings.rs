//! Helpers shared by the chains that read showings from data: byte ranges of UTF-8 text,
//! years, genre tags, and the grouping of showing times by format and language.
use crate::common::{lookup_text_spec, normalize_lookup_chars, opt_view, string_views, MISSING_DATA_LABEL};
use crate::domain::{MovieLookupMetadata, MoviePlayDetails, MoviePlayTime, Repertoire};
use crate::retry::digits_value;
use crate::text::{chars_eq, chars_of, copy_range, is_ascii_digit_spec, join, join_seq, string_of, views_of};
use vstd::prelude::*;

verus! {

/// The number of bytes of a character in UTF-8.
pub open spec fn utf8_len(c: char) -> int {
    let v = c as u32;
    if v < 0x80 {
        1
    } else if v < 0x800 {
        2
    } else if v < 0x10000 {
        3
    } else {
        4
    }
}

/// The byte position where character `k` of `s` starts.
pub open spec fn byte_offset(s: Seq<char>, k: int) -> int
    decreases k,
{
    if k <= 0 {
        0
    } else {
        byte_offset(s, k - 1) + utf8_len(s[k - 1])
    }
}

proof fn lemma_byte_offset_increasing(s: Seq<char>, k1: int, k2: int)
    requires
        0 <= k1 < k2,
    ensures
        byte_offset(s, k1) < byte_offset(s, k2),
    decreases k2,
{
    if k2 > k1 + 1 {
        lemma_byte_offset_increasing(s, k1, k2 - 1);
    }
}

/// Byte `b` of `s` starts a character (or is the end of `s`).
pub open spec fn is_char_boundary(s: Seq<char>, b: int) -> bool {
    exists|k: int| 0 <= k <= s.len() && byte_offset(s, k) == b
}

pub open spec fn char_at_byte(s: Seq<char>, b: int) -> int {
    choose|k: int| 0 <= k <= s.len() && byte_offset(s, k) == b
}

/// The characters between bytes `a` and `b` of `s`, when both are character boundaries and
/// `a <= b` (`str::get(a..b)`).
pub open spec fn byte_slice_spec(s: Seq<char>, a: int, b: int) -> Option<Seq<char>> {
    if a <= b && is_char_boundary(s, a) && is_char_boundary(s, b) {
        Some(s.subrange(char_at_byte(s, a), char_at_byte(s, b)))
    } else {
        None
    }
}

fn char_utf8_len(c: char) -> (r: usize)
    ensures
        r == utf8_len(c),
{
    let v = c as u32;
    if v < 0x80 {
        1
    } else if v < 0x800 {
        2
    } else if v < 0x10000 {
        3
    } else {
        4
    }
}

/// The character position that starts at byte `b`, if any.
fn char_index_at_byte(s: &[char], b: usize) -> (r: Option<usize>)
    requires
        b < usize::MAX - 4,
    ensures
        match r {
            Some(k) => k <= s@.len() && byte_offset(s@, k as int) == b,
            None => !is_char_boundary(s@, b as int),
        },
{
    let mut k: usize = 0;
    let mut offset: usize = 0;
    while k < s.len() && offset < b
        invariant
            k <= s@.len(),
            b < usize::MAX - 4,
            offset == byte_offset(s@, k as int),
            offset <= b + 4,
            forall|j: int| 0 <= j < k ==> byte_offset(s@, j) < b,
        decreases s.len() - k,
    {
        let step = char_utf8_len(s[k]);
        offset = offset + step;
        k = k + 1;
    }
    if offset == b {
        return Some(k);
    }
    proof {
        assert forall|j: int| 0 <= j <= s@.len() implies byte_offset(s@, j) != b by {
            if j < k {
            } else if j > k {
                lemma_byte_offset_increasing(s@, k as int, j);
                if offset < b {
                    assert(k == s@.len());
                }
            }
        }
    }
    None
}

/// The characters between bytes `a` and `b`.
pub fn byte_slice(s: &[char], a: usize, b: usize) -> (r: Option<Vec<char>>)
    requires
        b < usize::MAX - 4,
    ensures
        match r {
            Some(v) => byte_slice_spec(s@, a as int, b as int) == Some(v@),
            None => byte_slice_spec(s@, a as int, b as int) is None,
        },
{
    if a > b {
        return None;
    }
    let ka = match char_index_at_byte(s, a) {
        Some(k) => k,
        None => return None,
    };
    let kb = match char_index_at_byte(s, b) {
        Some(k) => k,
        None => return None,
    };
    proof {
        let ca = char_at_byte(s@, a as int);
        let cb = char_at_byte(s@, b as int);
        if ca != ka as int {
            if ca < ka {
                lemma_byte_offset_increasing(s@, ca, ka as int);
            } else {
                lemma_byte_offset_increasing(s@, ka as int, ca);
            }
        }
        if cb != kb as int {
            if cb < kb {
                lemma_byte_offset_increasing(s@, cb, kb as int);
            } else {
                lemma_byte_offset_increasing(s@, kb as int, cb);
            }
        }
        if kb < ka {
            lemma_byte_offset_increasing(s@, kb as int, ka as int);
        }
    }
    Some(copy_range(s, ka, kb))
}

/// The value of a decimal integer as `i32::from_str` reads it: an optional sign and at least
/// one digit, within the range of `i32`.
pub open spec fn all_digits(s: Seq<char>) -> bool {
    forall|i: int| 0 <= i < s.len() ==> is_ascii_digit_spec(#[trigger] s[i])
}

/// The text after an optional leading sign.
pub open spec fn unsigned_part(s: Seq<char>) -> Seq<char> {
    if s.len() > 0 && (s[0] == '-' || s[0] == '+') {
        s.drop_first()
    } else {
        s
    }
}

pub open spec fn i32_text_value(s: Seq<char>) -> Option<int> {
    if s.len() == 0 {
        None
    } else {
        let negative = s[0] == '-';
        let digits = unsigned_part(s);
        if digits.len() == 0 || !all_digits(digits) {
            None
        } else {
            let v: int = if negative {
                -(digits_value(digits) as int)
            } else {
                digits_value(digits) as int
            };
            if i32::MIN <= v <= i32::MAX {
                Some(v)
            } else {
                None
            }
        }
    }
}

/// Ten to the power `n`.
pub open spec fn pow10(n: nat) -> int
    decreases n,
{
    if n == 0 {
        1
    } else {
        10 * pow10((n - 1) as nat)
    }
}

proof fn lemma_pow10_pos(n: nat)
    ensures
        0 < pow10(n),
    decreases n,
{
    if n > 0 {
        lemma_pow10_pos((n - 1) as nat);
    }
}

proof fn lemma_pow10_mono(a: nat, b: nat)
    requires
        a <= b,
    ensures
        0 < pow10(a) <= pow10(b),
    decreases b,
{
    lemma_pow10_pos(a);
    lemma_pow10_pos(b);
    if b > a {
        lemma_pow10_mono(a, (b - 1) as nat);
    }
}

proof fn lemma_digits_step(s: Seq<char>, start: int, i: int)
    requires
        0 <= start <= i < s.len(),
    ensures
        digits_value(s.subrange(start, i + 1)) == digits_value(s.subrange(start, i)) * 10 + (s[i] as nat - '0' as nat) as nat,
{
    assert(s.subrange(start, i + 1).drop_last() =~= s.subrange(start, i));
    assert(s.subrange(start, i + 1).last() == s[i]);
}

proof fn lemma_value_step(value: int, d: int, n: nat)
    requires
        0 <= value < pow10(n),
        0 <= d <= 9,
        n < 9,
    ensures
        0 <= value * 10 + d < pow10(n + 1),
        pow10(n + 1) <= 1_000_000_000,
{
    assert(value * 10 + d < pow10(n + 1)) by (nonlinear_arith)
        requires
            value < pow10(n),
            0 <= d <= 9,
            pow10(n + 1) == 10 * pow10(n);
    assert(pow10(n + 1) <= 1_000_000_000) by {
        lemma_pow10_mono(n + 1, 9);
        reveal_with_fuel(pow10, 10);
    }
}

/// Reads a short decimal integer.
pub fn parse_short_i32(s: &[char]) -> (r: Option<i32>)
    requires
        s@.len() <= 9,
    ensures
        match r {
            Some(v) => i32_text_value(s@) == Some(v as int),
            None => i32_text_value(s@) is None,
        },
{
    if s.len() == 0 {
        return None;
    }
    let negative = s[0] == '-';
    let start: usize = if s[0] == '-' || s[0] == '+' {
        1
    } else {
        0
    };
    let ghost digits = unsigned_part(s@);
    assert(digits =~= s@.subrange(start as int, s@.len() as int));
    if start == s.len() {
        return None;
    }
    let mut value: i64 = 0;
    let mut i: usize = start;
    while i < s.len()
        invariant
            start <= i <= s@.len(),
            s@.len() <= 9,
            s@.len() > 0,
            negative == (s@[0] == '-'),
            digits == unsigned_part(s@),
            digits == s@.subrange(start as int, s@.len() as int),
            forall|j: int| start <= j < i ==> is_ascii_digit_spec(#[trigger] s@[j]),
            value == digits_value(s@.subrange(start as int, i as int)),
            0 <= value < 1_000_000_000,
            value < pow10((i - start) as nat),
        decreases s.len() - i,
    {
        let c = s[i];
        if !('0' <= c && c <= '9') {
            assert(digits[i - start] == s@[i as int]);
            assert(!is_ascii_digit_spec(digits[i - start]));
            assert(!all_digits(digits));
            return None;
        }
        let d = (c as u32 - '0' as u32) as i64;
        proof {
            lemma_digits_step(s@, start as int, i as int);
            lemma_value_step(value as int, d as int, (i - start) as nat);
        }
        value = value * 10 + d;
        i = i + 1;
    }
    assert(s@.subrange(start as int, s@.len() as int) =~= digits);
    let signed = if negative {
        -value
    } else {
        value
    };
    Some(signed as i32)
}

/// The year at the start of a date: its first four bytes read as a number.
pub open spec fn year_prefix_spec(value: Seq<char>) -> Option<int> {
    match byte_slice_spec(value, 0, 4) {
        Some(t) => i32_text_value(t),
        None => None,
    }
}

proof fn lemma_byte_slice_short(s: Seq<char>, a: int, b: int, t: Seq<char>)
    requires
        0 <= a <= b,
        byte_slice_spec(s, a, b) == Some(t),
    ensures
        t.len() <= b - a,
{
    let ka = char_at_byte(s, a);
    let kb = char_at_byte(s, b);
    if kb < ka {
        lemma_byte_offset_increasing(s, kb, ka);
    }
    lemma_chars_within_bytes(s, ka, kb);
}

proof fn lemma_chars_within_bytes(s: Seq<char>, k1: int, k2: int)
    requires
        0 <= k1 <= k2,
    ensures
        k2 - k1 <= byte_offset(s, k2) - byte_offset(s, k1),
    decreases k2 - k1,
{
    if k2 > k1 {
        lemma_chars_within_bytes(s, k1, k2 - 1);
    }
}

pub fn parse_year_from_date(value: &str) -> (r: Option<i32>)
    ensures
        match r {
            Some(y) => year_prefix_spec(value@) == Some(y as int),
            None => year_prefix_spec(value@) is None,
        },
{
    let v = chars_of(value);
    match byte_slice(v.as_slice(), 0, 4) {
        Some(t) => {
            proof {
                lemma_byte_slice_short(v@, 0, 4, t@);
            }
            parse_short_i32(t.as_slice())
        },
        None => None,
    }
}

/// The genre names in comparison form, without empty or repeated ones.
pub open spec fn genre_tags_spec(genres: Seq<Seq<char>>) -> Seq<Seq<char>>
    decreases genres.len(),
{
    if genres.len() == 0 {
        Seq::empty()
    } else {
        let pre = genre_tags_spec(genres.drop_last());
        let n = lookup_text_spec(genres.last());
        if n.len() == 0 || pre.contains(n) {
            pre
        } else {
            pre.push(n)
        }
    }
}

pub fn normalize_genre_tags(genres: &Vec<String>) -> (r: Vec<String>)
    ensures
        string_views(r@) == genre_tags_spec(string_views(genres@)),
{
    let mut tags: Vec<String> = Vec::new();
    let mut i: usize = 0;
    while i < genres.len()
        invariant
            i <= genres@.len(),
            string_views(tags@) == genre_tags_spec(string_views(genres@).subrange(0, i as int)),
        decreases genres.len() - i,
    {
        assert(string_views(genres@).subrange(0, i + 1).drop_last() =~= string_views(genres@).subrange(0, i as int));
        assert(string_views(genres@).subrange(0, i + 1).last() == genres@[i as int]@);
        let normalized = normalize_lookup_chars(chars_of(genres[i].as_str()).as_slice());
        if normalized.len() > 0 {
            let mut found = false;
            let mut k: usize = 0;
            while k < tags.len()
                invariant
                    k <= tags@.len(),
                    found == (exists|m: int| 0 <= m < k && string_views(tags@)[m] == normalized@),
                decreases tags.len() - k,
            {
                assert(string_views(tags@)[k as int] == tags@[k as int]@);
                if chars_eq(chars_of(tags[k].as_str()).as_slice(), normalized.as_slice()) {
                    found = true;
                }
                k = k + 1;
            }
            if !found {
                let ghost before = string_views(tags@);
                tags.push(string_of(normalized.as_slice()));
                assert(string_views(tags@) =~= before.push(normalized@));
            }
        }
        i = i + 1;
    }
    assert(string_views(genres@).subrange(0, genres@.len() as int) =~= string_views(genres@));
    tags
}

/// The showing times grouped by format and language, groups in the order of their first
/// showing, times in their order.
pub open spec fn group_showings(items: Seq<(Seq<char>, Seq<char>, TimeView)>) -> Seq<(Seq<char>, Seq<char>, Seq<TimeView>)>
    decreases items.len(),
{
    if items.len() == 0 {
        Seq::empty()
    } else {
        let pre = group_showings(items.drop_last());
        add_to_groups(pre, items.last().0, items.last().1, items.last().2)
    }
}

/// The position of the group with format `f` and language `l`.
pub open spec fn group_index(groups: Seq<(Seq<char>, Seq<char>, Seq<TimeView>)>, f: Seq<char>, l: Seq<char>) -> int {
    choose|j: int| 0 <= j < groups.len() && groups[j].0 == f && groups[j].1 == l
}

/// A showing time added to the group of its format and language, or in a new group.
pub open spec fn add_to_groups(
    groups: Seq<(Seq<char>, Seq<char>, Seq<TimeView>)>,
    f: Seq<char>,
    l: Seq<char>,
    t: TimeView,
) -> Seq<(Seq<char>, Seq<char>, Seq<TimeView>)> {
    if exists|j: int| 0 <= j < groups.len() && groups[j].0 == f && groups[j].1 == l {
        let j = group_index(groups, f, l);
        groups.update(j, (f, l, groups[j].2.push(t)))
    } else {
        groups.push((f, l, seq![t]))
    }
}

/// A showing time as text: its value and its link.
pub type TimeView = (Seq<char>, Option<Seq<char>>);

pub open spec fn time_view(t: MoviePlayTime) -> TimeView {
    (t.value@, opt_view(t.url))
}

pub open spec fn details_view(d: MoviePlayDetails) -> (Seq<char>, Seq<char>, Seq<TimeView>) {
    (d.format@, d.play_language@, d.play_times@.map_values(|t: MoviePlayTime| time_view(t)))
}

pub open spec fn details_views(v: Seq<MoviePlayDetails>) -> Seq<(Seq<char>, Seq<char>, Seq<TimeView>)> {
    v.map_values(|d: MoviePlayDetails| details_view(d))
}

/// No two groups share a format and a language.
pub open spec fn groups_distinct(g: Seq<(Seq<char>, Seq<char>, Seq<TimeView>)>) -> bool {
    forall|a: int, b: int| 0 <= a < b < g.len() ==> !(g[a].0 == g[b].0 && g[a].1 == g[b].1)
}

/// Showings grouped by format and language form one group per format and language.
pub proof fn lemma_group_showings_distinct(items: Seq<(Seq<char>, Seq<char>, TimeView)>)
    ensures
        groups_distinct(group_showings(items)),
    decreases items.len(),
{
    if items.len() > 0 {
        lemma_group_showings_distinct(items.drop_last());
    }
}

/// Every showing lands in the group of its own format and language, with its time.
pub proof fn lemma_showing_in_its_group(items: Seq<(Seq<char>, Seq<char>, TimeView)>, i: int)
    requires
        0 <= i < items.len(),
    ensures
        exists|g: int| #![trigger group_showings(items)[g]] 0 <= g < group_showings(items).len()
            && group_showings(items)[g].0 == items[i].0 && group_showings(items)[g].1 == items[i].1
            && group_showings(items)[g].2.contains(items[i].2),
    decreases items.len(),
{
    let p = items.drop_last();
    let pre = group_showings(p);
    let gs = group_showings(items);
    let (f, l, t) = items.last();
    if i == items.len() - 1 {
        if exists|j: int| 0 <= j < pre.len() && pre[j].0 == f && pre[j].1 == l {
            let j = group_index(pre, f, l);
            assert(gs[j].2 == pre[j].2.push(t));
            assert(gs[j].2[pre[j].2.len() as int] == t);
        } else {
            assert(gs[pre.len() as int].2 == seq![t]);
            assert(gs[pre.len() as int].2[0] == t);
        }
    } else {
        lemma_showing_in_its_group(p, i);
        assert(p[i] == items[i]);
        let g = choose|g: int| #![trigger pre[g]] 0 <= g < pre.len() && pre[g].0 == p[i].0 && pre[g].1 == p[i].1
            && pre[g].2.contains(p[i].2);
        let k = choose|k: int| 0 <= k < pre[g].2.len() && pre[g].2[k] == p[i].2;
        if exists|j: int| 0 <= j < pre.len() && pre[j].0 == f && pre[j].1 == l {
            let j = group_index(pre, f, l);
            if j == g {
                assert(gs[g].2 == pre[g].2.push(t));
                assert(gs[g].2[k] == pre[g].2[k]);
            } else {
                assert(gs[g] == pre[g]);
            }
        } else {
            assert(gs[g] == pre[g]);
        }
    }
}

/// Every time in a group is the time of a showing with that group's format and language.
pub proof fn lemma_group_times_come_from_showings(items: Seq<(Seq<char>, Seq<char>, TimeView)>, g: int, k: int)
    requires
        0 <= g < group_showings(items).len(),
        0 <= k < group_showings(items)[g].2.len(),
    ensures
        exists|i: int| #![trigger items[i]] 0 <= i < items.len() && items[i].0 == group_showings(items)[g].0
            && items[i].1 == group_showings(items)[g].1 && items[i].2 == group_showings(items)[g].2[k],
    decreases items.len(),
{
    let p = items.drop_last();
    let pre = group_showings(p);
    let gs = group_showings(items);
    let n = items.len() - 1;
    let (f, l, t) = items.last();
    assert(items[n] == (f, l, t));
    if exists|j: int| 0 <= j < pre.len() && pre[j].0 == f && pre[j].1 == l {
        let j = group_index(pre, f, l);
        if g == j && k == pre[j].2.len() {
            assert(gs[g].2 == pre[j].2.push(t));
        } else {
            if g == j {
                assert(gs[g].2 == pre[j].2.push(t));
                assert(gs[g].2[k] == pre[g].2[k]);
            } else {
                assert(gs[g] == pre[g]);
            }
            lemma_group_times_come_from_showings(p, g, k);
            let i = choose|i: int| #![trigger p[i]] 0 <= i < p.len() && p[i].0 == pre[g].0 && p[i].1 == pre[g].1 && p[i].2 == pre[g].2[k];
            assert(items[i] == p[i]);
        }
    } else {
        if g == pre.len() {
            assert(gs[g] == (f, l, seq![t]));
        } else {
            assert(gs[g] == pre[g]);
            lemma_group_times_come_from_showings(p, g, k);
            let i = choose|i: int| #![trigger p[i]] 0 <= i < p.len() && p[i].0 == pre[g].0 && p[i].1 == pre[g].1 && p[i].2 == pre[g].2[k];
            assert(items[i] == p[i]);
        }
    }
}

/// Adds a showing time to the group of its format and language, or starts that group.
pub fn add_showing(play_details: &mut Vec<MoviePlayDetails>, format: String, play_language: String, play_time: MoviePlayTime)
    requires
        groups_distinct(details_views(old(play_details)@)),
    ensures
        groups_distinct(details_views(final(play_details)@)),
        details_views(final(play_details)@) == add_to_groups(details_views(old(play_details)@), format@, play_language@, time_view(play_time)),
{
    let ghost pre = details_views(play_details@);
    let mut j: usize = 0;
    while j < play_details.len()
        invariant
            j <= play_details@.len(),
            pre == details_views(play_details@),
            pre == details_views(old(play_details)@),
            groups_distinct(pre),
            forall|m: int| 0 <= m < j ==> !(pre[m].0 == format@ && pre[m].1 == play_language@),
        decreases play_details.len() - j,
    {
        if play_details[j].format == format && play_details[j].play_language == play_language {
            let ghost old_pd = play_details@;
            let mut d = play_details.remove(j);
            let ghost old_times = d.play_times@;
            d.play_times.push(play_time);
            assert(d.play_times@.map_values(|t: MoviePlayTime| time_view(t)) =~= old_times.map_values(|t: MoviePlayTime| time_view(t)).push(time_view(play_time)));
            play_details.insert(j, d);
            proof {
                assert(pre[j as int] == details_view(old_pd[j as int]));
                assert(pre[j as int].0 == format@ && pre[j as int].1 == play_language@);
                assert(exists|m: int| 0 <= m < pre.len() && pre[m].0 == format@ && pre[m].1 == play_language@);
                let c = group_index(pre, format@, play_language@);
                assert(c == j as int) by {
                    if c < j {
                        assert(!(pre[c].0 == pre[j as int].0 && pre[c].1 == pre[j as int].1));
                    } else if c > j {
                        assert(!(pre[j as int].0 == pre[c].0 && pre[j as int].1 == pre[c].1));
                    }
                }
                assert(play_details@ =~= old_pd.update(j as int, play_details@[j as int]));
                assert(details_view(play_details@[j as int]) == (format@, play_language@, pre[j as int].2.push(time_view(play_time))));
                assert(details_views(play_details@) =~= pre.update(j as int, (format@, play_language@, pre[j as int].2.push(time_view(play_time)))));
                assert(pre == details_views(old(play_details)@));
                assert(details_views(play_details@) == add_to_groups(pre, format@, play_language@, time_view(play_time)));
                assert forall|a: int, b: int| 0 <= a < b < details_views(play_details@).len() implies !(details_views(play_details@)[a].0 == details_views(play_details@)[b].0
                    && details_views(play_details@)[a].1 == details_views(play_details@)[b].1) by {
                    assert(details_views(play_details@)[a].0 == pre[a].0 && details_views(play_details@)[a].1 == pre[a].1);
                    assert(details_views(play_details@)[b].0 == pre[b].0 && details_views(play_details@)[b].1 == pre[b].1);
                }
            }
            return;
        }
        j = j + 1;
    }
    let mut times: Vec<MoviePlayTime> = Vec::new();
    times.push(play_time);
    play_details.push(MoviePlayDetails { format, play_language, play_times: times });
    proof {
        assert(details_views(play_details@) =~= pre.push(details_view(play_details@.last())));
        assert(details_view(play_details@.last()).2 =~= seq![time_view(play_time)]);
    }
}

/// Joins non-empty values with commas, or gives the missing-data label when there are none.
pub open spec fn joined_or_missing(values: Seq<Seq<char>>) -> Seq<char> {
    if values.len() == 0 {
        MISSING_DATA_LABEL@
    } else {
        join_seq(values, ", "@)
    }
}

pub fn join_or_missing(values: &Vec<String>) -> (r: String)
    ensures
        r@ == joined_or_missing(string_views(values@)),
{
    if values.len() == 0 {
        return MISSING_DATA_LABEL.to_owned();
    }
    let mut parts: Vec<Vec<char>> = Vec::new();
    let mut i: usize = 0;
    while i < values.len()
        invariant
            i <= values@.len(),
            views_of(parts@) == string_views(values@).subrange(0, i as int),
        decreases values.len() - i,
    {
        let ghost before = views_of(parts@);
        let piece = chars_of(values[i].as_str());
        parts.push(piece);
        assert(views_of(parts@) =~= before.push(values@[i as int]@));
        assert(string_views(values@).subrange(0, i + 1) =~= string_views(values@).subrange(0, i as int).push(values@[i as int]@));
        i = i + 1;
    }
    assert(string_views(values@).subrange(0, values@.len() as int) =~= string_views(values@));
    let sep = chars_of(", ");
    string_of(join(&parts, sep.as_slice()).as_slice())
}

/// The hexadecimal digit of a value below 16, in upper case.
pub open spec fn hex_digit(v: int) -> char {
    if v < 10 {
        ((v + 48) as u8) as char
    } else {
        ((v + 55) as u8) as char
    }
}

/// The UTF-8 bytes of a character.
pub open spec fn utf8_bytes(c: char) -> Seq<u8> {
    let v = c as int;
    if v < 0x80 {
        seq![v as u8]
    } else if v < 0x800 {
        seq![(0xC0 + v / 64) as u8, (0x80 + v % 64) as u8]
    } else if v < 0x10000 {
        seq![(0xE0 + v / 4096) as u8, (0x80 + (v / 64) % 64) as u8, (0x80 + v % 64) as u8]
    } else {
        seq![(0xF0 + v / 262144) as u8, (0x80 + (v / 4096) % 64) as u8, (0x80 + (v / 64) % 64) as u8, (0x80 + v % 64) as u8]
    }
}

/// The UTF-8 bytes of a text.
pub open spec fn utf8_text(s: Seq<char>) -> Seq<u8>
    decreases s.len(),
{
    if s.len() == 0 {
        Seq::empty()
    } else {
        utf8_text(s.drop_last()) + utf8_bytes(s.last())
    }
}

/// A byte left as it is in a query value: an ASCII letter or digit, or `-`, `_`, `.`, `~`.
pub open spec fn unreserved_byte(b: u8) -> bool {
    (48 <= b <= 57) || (65 <= b <= 90) || (97 <= b <= 122) || b == 45 || b == 95 || b == 46 || b == 126
}

/// A byte as written in a query value: itself when unreserved, else `%` and two upper-case
/// hexadecimal digits.
pub open spec fn encoded_byte(b: u8) -> Seq<char> {
    if unreserved_byte(b) {
        seq![b as char]
    } else {
        seq!['%', hex_digit(b as int / 16), hex_digit(b as int % 16)]
    }
}

pub open spec fn encoded_bytes(bs: Seq<u8>) -> Seq<char>
    decreases bs.len(),
{
    if bs.len() == 0 {
        Seq::empty()
    } else {
        encoded_bytes(bs.drop_last()) + encoded_byte(bs.last())
    }
}

proof fn lemma_encoded_bytes_append(a: Seq<u8>, b: Seq<u8>)
    ensures
        encoded_bytes(a + b) == encoded_bytes(a) + encoded_bytes(b),
    decreases b.len(),
{
    if b.len() == 0 {
        assert(a + b =~= a);
        assert(encoded_bytes(a) + encoded_bytes(b) =~= encoded_bytes(a));
    } else {
        lemma_encoded_bytes_append(a, b.drop_last());
        assert((a + b).drop_last() =~= a + b.drop_last());
        assert((a + b).last() == b.last());
    }
}

fn hex_digit_char(v: u8) -> (r: char)
    requires
        v < 16,
    ensures
        r == hex_digit(v as int),
{
    if v < 10 {
        (v + 48) as char
    } else {
        (v + 55) as char
    }
}

fn push_encoded_byte(out: &mut Vec<char>, b: u8)
    ensures
        final(out)@ == old(out)@ + encoded_byte(b),
{
    if (48 <= b && b <= 57) || (65 <= b && b <= 90) || (97 <= b && b <= 122) || b == 45 || b == 95 || b == 46 || b == 126 {
        out.push(b as char);
    } else {
        out.push('%');
        out.push(hex_digit_char(b / 16));
        out.push(hex_digit_char(b % 16));
    }
}

fn char_bytes(c: char) -> (r: Vec<u8>)
    ensures
        r@ == utf8_bytes(c),
{
    let v = c as u32;
    let mut r: Vec<u8> = Vec::new();
    if v < 0x80 {
        r.push(v as u8);
    } else if v < 0x800 {
        r.push((0xC0 + v / 64) as u8);
        r.push((0x80 + v % 64) as u8);
    } else if v < 0x10000 {
        r.push((0xE0 + v / 4096) as u8);
        r.push((0x80 + (v / 64) % 64) as u8);
        r.push((0x80 + v % 64) as u8);
    } else {
        assert(v <= 0x10FFFF);
        r.push((0xF0 + v / 262144) as u8);
        r.push((0x80 + (v / 4096) % 64) as u8);
        r.push((0x80 + (v / 64) % 64) as u8);
        r.push((0x80 + v % 64) as u8);
    }
    assert(r@ =~= utf8_bytes(c));
    r
}

/// A text percent-encoded for a URL query value: each UTF-8 byte as `encoded_byte` says.
pub fn percent_encode_query_value(value: &str) -> (r: String)
    ensures
        r@ == encoded_bytes(utf8_text(value@)),
{
    let v = chars_of(value);
    let mut out: Vec<char> = Vec::new();
    let mut i: usize = 0;
    while i < v.len()
        invariant
            i <= v@.len(),
            v@ == value@,
            out@ == encoded_bytes(utf8_text(v@.subrange(0, i as int))),
        decreases v.len() - i,
    {
        let bytes = char_bytes(v[i]);
        let ghost before = out@;
        let mut k: usize = 0;
        while k < bytes.len()
            invariant
                k <= bytes@.len(),
                out@ == before + encoded_bytes(bytes@.subrange(0, k as int)),
            decreases bytes.len() - k,
        {
            proof {
                lemma_encoded_bytes_append(bytes@.subrange(0, k as int), seq![bytes@[k as int]]);
                assert(bytes@.subrange(0, k + 1) =~= bytes@.subrange(0, k as int) + seq![bytes@[k as int]]);
                assert(encoded_bytes(seq![bytes@[k as int]]) =~= encoded_byte(bytes@[k as int])) by {
                    let one = seq![bytes@[k as int]];
                    assert(one.drop_last() =~= Seq::<u8>::empty());
                    assert(one.last() == bytes@[k as int]);
                    assert(encoded_bytes(Seq::<u8>::empty()) == Seq::<char>::empty());
                    assert(encoded_bytes(one) == encoded_bytes(one.drop_last()) + encoded_byte(one.last()));
                }
            }
            push_encoded_byte(&mut out, bytes[k]);
            k = k + 1;
        }
        proof {
            assert(bytes@.subrange(0, bytes@.len() as int) =~= bytes@);
            assert(v@.subrange(0, i + 1).drop_last() =~= v@.subrange(0, i as int));
            lemma_encoded_bytes_append(utf8_text(v@.subrange(0, i as int)), utf8_bytes(v@[i as int]));
        }
        i = i + 1;
    }
    assert(v@.subrange(0, v@.len() as int) =~= v@);
    string_of(out.as_slice())
}


/// The lookup metadata as text: chain movie id, movie page, alternate titles, running time,
/// original language, genre tags, production year and Polish premiere date.
pub type MetadataView = (
    Option<Seq<char>>,
    Option<Seq<char>>,
    Seq<Seq<char>>,
    Option<u16>,
    Option<Seq<char>>,
    Seq<Seq<char>>,
    Option<int>,
    Option<Seq<char>>,
);

pub open spec fn metadata_view(m: MovieLookupMetadata) -> MetadataView {
    (
        opt_view(m.chain_movie_id),
        opt_view(m.movie_page_url),
        string_views(m.alternate_titles@),
        m.runtime_minutes,
        opt_view(m.original_language_code),
        string_views(m.genre_tags@),
        match m.production_year {
            Some(y) => Some(y as int),
            None => None,
        },
        opt_view(m.polish_premiere_date),
    )
}

/// A repertoire entry as text: title, genres, length, original language, showings and
/// lookup metadata.
pub type RepertoireView = (Seq<char>, Seq<char>, Seq<char>, Seq<char>, Seq<(Seq<char>, Seq<char>, Seq<TimeView>)>, MetadataView);

pub open spec fn repertoire_view(r: Repertoire) -> RepertoireView {
    (r.title@, r.genres@, r.play_length@, r.original_language@, details_views(r.play_details@), metadata_view(r.lookup_metadata))
}

pub open spec fn repertoire_views(v: Seq<Repertoire>) -> Seq<RepertoireView> {
    v.map_values(|r: Repertoire| repertoire_view(r))
}
} // verus!
