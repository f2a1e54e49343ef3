//! What holds of `config.ini` as the library writes and reads it: settings written and read
//! back are the settings that were written.
use crate::common::{normalized_optional, opt_view, split_once_eq};
use crate::config::{
    default_day_spec, eq_sep, ini_entries, ini_line, ini_spec, ini_value, newline_terminated, or_empty,
    settings_from_entries_ok, settings_lines, settings_text, strip_cr, text_lines, Settings,
};
use crate::domain::{chain_for_input, chain_id_seq, lemma_chain_id_roundtrip, CinemaChainId};
use crate::text::{is_ws, lemma_split_nonempty, split_seq, trim_end_seq, trim_seq, trim_start_seq};
use vstd::prelude::*;

verus! {

proof fn lemma_split_concat(x: Seq<char>, y: Seq<char>, c: char)
    ensures
        split_seq(x + seq![c] + y, seq![c]) == split_seq(x, seq![c]) + split_seq(y, seq![c]),
    decreases y.len(),
{
    let seps = seq![c];
    assert(seps.contains(c)) by {
        assert(seps[0] == c);
    }
    let z = x + seq![c] + y;
    if y.len() == 0 {
        assert(z.drop_last() =~= x);
        assert(z.last() == c);
        assert(split_seq(y, seps) =~= seq![Seq::<char>::empty()]);
        assert(split_seq(x, seps).push(Seq::<char>::empty()) =~= split_seq(x, seps) + seq![Seq::<char>::empty()]);
    } else {
        let y2 = y.drop_last();
        let d = y.last();
        lemma_split_concat(x, y2, c);
        assert(z.drop_last() =~= x + seq![c] + y2);
        assert(z.last() == d);
        let a = split_seq(x, seps);
        let b = split_seq(y2, seps);
        lemma_split_nonempty(y2, seps);
        if seps.contains(d) {
            assert((a + b).push(Seq::<char>::empty()) =~= a + b.push(Seq::<char>::empty()));
        } else {
            let pre = a + b;
            assert(pre.update(pre.len() - 1, pre.last().push(d)) =~= a + b.update(b.len() - 1, b.last().push(d)));
        }
    }
}

proof fn lemma_split_plain(x: Seq<char>, c: char)
    requires
        !x.contains(c),
    ensures
        split_seq(x, seq![c]) == seq![x],
    decreases x.len(),
{
    let seps = seq![c];
    if x.len() > 0 {
        let x2 = x.drop_last();
        assert(!x2.contains(c)) by {
            if x2.contains(c) {
                let k = choose|k: int| 0 <= k < x2.len() && x2[k] == c;
                assert(x[k] == c);
            }
        }
        lemma_split_plain(x2, c);
        assert(!seps.contains(x.last())) by {
            if seps.contains(x.last()) {
                assert(x.last() == c);
                assert(x[x.len() - 1] == c);
            }
        }
        assert(x2.push(x.last()) =~= x);
        assert(seq![x2].update(0, x2.push(x.last())) =~= seq![x]);
        assert(split_seq(x, seps) == split_seq(x2, seps).update(0, split_seq(x2, seps).last().push(x.last())));
    } else {
        assert(x =~= Seq::<char>::empty());
    }
}

proof fn lemma_split_terminated(lines: Seq<Seq<char>>, tail: Seq<char>)
    requires
        forall|i: int| 0 <= i < lines.len() ==> !(#[trigger] lines[i]).contains('\n'),
    ensures
        split_seq(newline_terminated(lines) + tail, seq!['\n']) == lines + split_seq(tail, seq!['\n']),
    decreases lines.len(),
{
    if lines.len() == 0 {
        assert(newline_terminated(lines) + tail =~= tail);
        assert(lines + split_seq(tail, seq!['\n']) =~= split_seq(tail, seq!['\n']));
    } else {
        let init = lines.drop_last();
        let last = lines.last();
        assert forall|i: int| 0 <= i < init.len() implies !(#[trigger] init[i]).contains('\n') by {
            assert(init[i] == lines[i]);
        }
        assert(!last.contains('\n')) by {
            assert(last == lines[lines.len() - 1]);
        }
        lemma_split_terminated(init, last);
        lemma_split_plain(last, '\n');
        assert(newline_terminated(lines) + tail =~= (newline_terminated(init) + last) + seq!['\n'] + tail);
        lemma_split_concat(newline_terminated(init) + last, tail, '\n');
        assert(init + seq![last] + split_seq(tail, seq!['\n']) =~= lines + split_seq(tail, seq!['\n']));
    }
}

proof fn lemma_terminated_ends(lines: Seq<Seq<char>>)
    requires
        lines.len() > 0,
    ensures
        newline_terminated(lines).len() > 0,
        newline_terminated(lines).last() == '\n',
{
}

proof fn lemma_text_lines_terminated(lines: Seq<Seq<char>>)
    requires
        lines.len() > 0,
        forall|i: int| 0 <= i < lines.len() ==> !(#[trigger] lines[i]).contains('\n'),
        forall|i: int| 0 <= i < lines.len() ==> strip_cr(#[trigger] lines[i]) == lines[i],
    ensures
        text_lines(newline_terminated(lines)) == lines,
{
    lemma_split_terminated(lines, Seq::<char>::empty());
    lemma_terminated_ends(lines);
    assert(newline_terminated(lines) + Seq::<char>::empty() =~= newline_terminated(lines));
    assert(split_seq(Seq::<char>::empty(), seq!['\n']) =~= seq![Seq::<char>::empty()]);
    let kept = (lines + seq![Seq::<char>::empty()]).drop_last();
    assert(kept =~= lines);
    assert(kept.map_values(|l: Seq<char>| strip_cr(l)) =~= lines);
}

proof fn lemma_trim_lengths(s: Seq<char>)
    ensures
        trim_start_seq(s).len() <= s.len(),
        trim_end_seq(s).len() <= s.len(),
    decreases s.len(),
{
    if s.len() > 0 {
        lemma_trim_lengths(s.drop_first());
        lemma_trim_lengths(s.drop_last());
    }
}

proof fn lemma_trim_fixed(s: Seq<char>)
    requires
        s.len() == 0 || (!is_ws(s[0]) && !is_ws(s.last())),
    ensures
        trim_seq(s) == s,
{
    assert(trim_start_seq(s) == s);
    assert(trim_end_seq(s) == s);
}

proof fn lemma_trimmed_ends(v: Seq<char>)
    requires
        trim_seq(v) == v,
        v.len() > 0,
    ensures
        !is_ws(v[0]),
        !is_ws(v.last()),
{
    if is_ws(v[0]) {
        lemma_trim_lengths(v.drop_first());
        lemma_trim_lengths(trim_start_seq(v));
        assert(trim_start_seq(v) == trim_start_seq(v.drop_first()));
        assert(false);
    }
    assert(trim_start_seq(v) == v);
    if is_ws(v.last()) {
        lemma_trim_lengths(v.drop_last());
        assert(trim_end_seq(v) == trim_end_seq(v.drop_last()));
        assert(false);
    }
}

/// A key as the settings file writes it: not empty, without `=`, without whitespace at its
/// ends, and not starting like a comment or a section.
#[verifier::opaque]
pub open spec fn plain_key(key: Seq<char>) -> bool {
    &&& key.len() > 0
    &&& !key.contains('=')
    &&& !is_ws(key[0])
    &&& !is_ws(key.last())
    &&& key[0] != '#'
    &&& key[0] != ';'
    &&& key[0] != '['
}

proof fn lemma_entry_line(key: Seq<char>, v: Seq<char>, section: Seq<char>)
    requires
        plain_key(key),
        trim_seq(v) == v,
    ensures
        ini_line(key + seq![' ', '=', ' '] + v, Some(section)) == Some((Some(section), Some((section, key, v)))),
{
    reveal(plain_key);
    let line = key + seq![' ', '=', ' '] + v;
    let rest = if v.len() == 0 { Seq::<char>::empty() } else { seq![' '] + v };
    let t = key + seq![' ', '='] + rest;
    if v.len() > 0 {
        lemma_trimmed_ends(v);
        assert(line[0] == key[0]);
        assert(line.last() == v.last());
        lemma_trim_fixed(line);
        assert(line =~= t);
    } else {
        assert(line[0] == key[0]);
        assert(trim_start_seq(line) == line);
        assert(line.drop_last() =~= key + seq![' ', '=']);
        assert(is_ws(line.last()));
        assert(trim_end_seq(line) == trim_end_seq(line.drop_last()));
        assert((key + seq![' ', '=']).last() == '=');
        assert(trim_end_seq(key + seq![' ', '=']) == key + seq![' ', '=']);
        assert(t =~= key + seq![' ', '=']);
    }
    assert(trim_seq(line) == t);
    let e = key.len() as int + 1;
    assert(t[e] == '=');
    assert(t.contains('='));
    let i = choose|i: int| 0 <= i < t.len() && t[i] == '=' && forall|j: int| 0 <= j < i ==> t[j] != '=';
    assert(i == e) by {
        if i < e {
            if i < key.len() {
                assert(t[i] == key[i]);
                assert(key.contains('='));
            } else {
                assert(t[i] == ' ');
            }
        } else if i > e {
            assert(t[e] == '=');
        }
    }
    assert(t.subrange(0, i) =~= key + seq![' ']);
    assert(t.subrange(i + 1, t.len() as int) =~= rest);
    let k = key + seq![' '];
    assert(k[0] == key[0]);
    assert(trim_start_seq(k) == k);
    assert(k.drop_last() =~= key);
    assert(trim_end_seq(k) == trim_end_seq(key));
    lemma_trim_fixed(key);
    assert(trim_end_seq(key) == key);
    assert(trim_seq(k) == key);
    if v.len() > 0 {
        assert(rest.drop_first() =~= v);
        assert(trim_start_seq(rest) == trim_start_seq(v));
        assert(trim_start_seq(v) == v);
        assert(trim_seq(rest) == v);
    } else {
        assert(trim_seq(rest) =~= v);
    }
    assert(t[0] == key[0]);
}

proof fn lemma_section_line(name: Seq<char>, current: Option<Seq<char>>)
    requires
        name.len() > 0,
        !is_ws(name[0]),
        !is_ws(name.last()),
    ensures
        ini_line(seq!['['] + name + seq![']'], current) == Some((Some(name), None::<(Seq<char>, Seq<char>, Seq<char>)>)),
{
    let line = seq!['['] + name + seq![']'];
    lemma_trim_fixed(line);
    assert(line.subrange(1, line.len() - 1) =~= name);
    lemma_trim_fixed(name);
}

proof fn lemma_blank_line(current: Option<Seq<char>>)
    ensures
        ini_line(Seq::<char>::empty(), current) == Some((current, None::<(Seq<char>, Seq<char>, Seq<char>)>)),
{
    lemma_trim_fixed(Seq::<char>::empty());
}

/// `s` holds no `c`, checked character by character.
pub open spec fn no_char(s: Seq<char>, c: char) -> bool
    decreases s.len(),
{
    s.len() == 0 || (s[0] != c && no_char(s.drop_first(), c))
}

proof fn lemma_no_char(s: Seq<char>, c: char)
    requires
        no_char(s, c),
    ensures
        !s.contains(c),
    decreases s.len(),
{
    if s.len() > 0 {
        lemma_no_char(s.drop_first(), c);
        if s.contains(c) {
            let k = choose|k: int| 0 <= k < s.len() && s[k] == c;
            if k > 0 {
                assert(s.drop_first()[k - 1] == c);
            }
        }
    }
}

proof fn lemma_concat_lacks(a: Seq<char>, b: Seq<char>, c: char)
    requires
        !a.contains(c),
        !b.contains(c),
    ensures
        !(a + b).contains(c),
{
    if (a + b).contains(c) {
        let k = choose|k: int| 0 <= k < (a + b).len() && (a + b)[k] == c;
        if k < a.len() {
            assert(a[k] == c);
        } else {
            assert(b[k - a.len()] == c);
        }
    }
}

/// A value that `config.ini` keeps as it is: trimmed and on one line.
pub open spec fn clean_text(v: Seq<char>) -> bool {
    trim_seq(v) == v && !v.contains('\n')
}

/// An optional value that `config.ini` keeps as it is: absent, or not empty and clean.
pub open spec fn clean_optional(v: Option<String>) -> bool {
    match v {
        Some(t) => t@.len() > 0 && clean_text(t@),
        None => true,
    }
}

/// Settings whose values the settings file keeps as they are: clean texts, and a default day
/// other than the older words "today" and "tomorrow" (which are read as "dziś" and "jutro").
pub open spec fn roundtrip_safe(s: Settings) -> bool {
    let p = s.user_preferences;
    &&& clean_text(p.default_day@)
    &&& p.default_day@ != "today"@
    &&& p.default_day@ != "tomorrow"@
    &&& clean_optional(p.tmdb_access_token)
    &&& clean_optional(p.default_venues.cinema_city)
    &&& clean_optional(p.default_venues.helios)
    &&& clean_optional(p.default_venues.multikino)
}

/// The settings as values: default chain, default day, token, and the default venue of each
/// chain.
pub open spec fn settings_view(s: Settings) -> (CinemaChainId, Seq<char>, Option<Seq<char>>, Option<Seq<char>>, Option<Seq<char>>, Option<Seq<char>>) {
    let p = s.user_preferences;
    (
        p.default_chain,
        p.default_day@,
        opt_view(p.tmdb_access_token),
        opt_view(p.default_venues.cinema_city),
        opt_view(p.default_venues.helios),
        opt_view(p.default_venues.multikino),
    )
}

proof fn lemma_clean_value(v: Seq<char>)
    requires
        trim_seq(v) == v,
        !v.contains('\n'),
    ensures
        v.len() == 0 || v.last() != '\r',
{
    if v.len() > 0 {
        lemma_trimmed_ends(v);
    }
}

proof fn lemma_key_line(key: Seq<char>, v: Seq<char>)
    requires
        !key.contains('\n'),
        trim_seq(v) == v,
        !v.contains('\n'),
    ensures
        !(key + eq_sep() + v).contains('\n'),
        strip_cr(key + eq_sep() + v) == key + eq_sep() + v,
{
    assert(!eq_sep().contains('\n')) by {
        if eq_sep().contains('\n') {
            let k = choose|k: int| 0 <= k < 3 && eq_sep()[k] == '\n';
        }
    }
    lemma_concat_lacks(key, eq_sep(), '\n');
    lemma_concat_lacks(key + eq_sep(), v, '\n');
    lemma_clean_value(v);
    let line = key + eq_sep() + v;
    if v.len() > 0 {
        assert(line.last() == v.last());
    } else {
        assert(line.last() == ' ');
    }
}

proof fn lemma_optional_clean(v: Option<String>)
    requires
        clean_optional(v),
    ensures
        trim_seq(or_empty(opt_view(v))) == or_empty(opt_view(v)),
        !or_empty(opt_view(v)).contains('\n'),
        normalized_optional(Some(or_empty(opt_view(v)))) == opt_view(v),
{
    match v {
        Some(t) => {},
        None => {
            lemma_trim_fixed(Seq::<char>::empty());
            assert(!Seq::<char>::empty().contains('\n'));
        },
    }
}

proof fn lemma_plain_key(key: Seq<char>)
    requires
        no_char(key, '='),
        key.len() > 0,
        !is_ws(key[0]),
        !is_ws(key.last()),
        key[0] != '#',
        key[0] != ';',
        key[0] != '[',
    ensures
        plain_key(key),
{
    reveal(plain_key);
    lemma_no_char(key, '=');
}

proof fn lemma_entries_step(
    lines: Seq<Seq<char>>,
    k: int,
    cur: Option<Seq<char>>,
    next: Option<Seq<char>>,
    entry: Option<(Seq<char>, Seq<char>, Seq<char>)>,
    rest: Seq<(Seq<char>, Seq<char>, Seq<char>)>,
)
    requires
        0 <= k < lines.len(),
        ini_line(lines[k], cur) == Some((next, entry)),
        ini_entries(lines.subrange(k + 1, lines.len() as int), next) == Some(rest),
    ensures
        ini_entries(lines.subrange(k, lines.len() as int), cur) == Some(
            match entry {
                Some(e) => seq![e] + rest,
                None => rest,
            },
        ),
{
    let sub = lines.subrange(k, lines.len() as int);
    assert(sub[0] == lines[k]);
    assert(sub.drop_first() =~= lines.subrange(k + 1, lines.len() as int));
}

proof fn lemma_value_clean(v: Seq<char>)
    requires
        v.len() > 0,
        !is_ws(v[0]),
        !is_ws(v.last()),
        no_char(v, '\n'),
    ensures
        trim_seq(v) == v,
        !v.contains('\n'),
{
    lemma_trim_fixed(v);
    lemma_no_char(v, '\n');
}

proof fn lemma_chain_text_clean(id: CinemaChainId)
    ensures
        trim_seq(chain_id_seq(id)) == chain_id_seq(id),
        !chain_id_seq(id).contains('\n'),
{
    reveal_strlit("cinema-city");
    reveal_strlit("helios");
    reveal_strlit("multikino");
    reveal_with_fuel(no_char, 20);
    lemma_value_clean(chain_id_seq(id));
}

/// The entries that the settings file's lines give.
pub open spec fn settings_entries(s: Settings) -> Seq<(Seq<char>, Seq<char>, Seq<char>)> {
    let p = s.user_preferences;
    seq![
        ("user_preferences"@, "default_chain"@, chain_id_seq(p.default_chain)),
        ("user_preferences"@, "default_day"@, p.default_day@),
        ("user_preferences"@, "tmdb_access_token"@, or_empty(opt_view(p.tmdb_access_token))),
        ("default_venues"@, "cinema_city"@, or_empty(opt_view(p.default_venues.cinema_city))),
        ("default_venues"@, "helios"@, or_empty(opt_view(p.default_venues.helios))),
        ("default_venues"@, "multikino"@, or_empty(opt_view(p.default_venues.multikino))),
    ]
}

/// The keys and section names of the settings file are plain.
proof fn lemma_file_literals()
    ensures
        plain_key("default_chain"@) && !"default_chain"@.contains('\n'),
        plain_key("default_day"@) && !"default_day"@.contains('\n'),
        plain_key("tmdb_access_token"@) && !"tmdb_access_token"@.contains('\n'),
        plain_key("cinema_city"@) && !"cinema_city"@.contains('\n'),
        plain_key("helios"@) && !"helios"@.contains('\n'),
        plain_key("multikino"@) && !"multikino"@.contains('\n'),
        "user_preferences"@.len() > 0 && !is_ws("user_preferences"@[0]) && !is_ws("user_preferences"@.last()),
        "default_venues"@.len() > 0 && !is_ws("default_venues"@[0]) && !is_ws("default_venues"@.last()),
        !"user_preferences"@.contains('\n') && !"default_venues"@.contains('\n'),
{
    reveal_strlit("user_preferences");
    reveal_strlit("default_venues");
    reveal_strlit("default_chain");
    reveal_strlit("default_day");
    reveal_strlit("tmdb_access_token");
    reveal_strlit("cinema_city");
    reveal_strlit("helios");
    reveal_strlit("multikino");
    reveal_with_fuel(no_char, 20);
    lemma_plain_key("default_chain"@);
    lemma_plain_key("default_day"@);
    lemma_plain_key("tmdb_access_token"@);
    lemma_plain_key("cinema_city"@);
    lemma_plain_key("helios"@);
    lemma_plain_key("multikino"@);
    lemma_no_char("default_chain"@, '\n');
    lemma_no_char("default_day"@, '\n');
    lemma_no_char("tmdb_access_token"@, '\n');
    lemma_no_char("cinema_city"@, '\n');
    lemma_no_char("helios"@, '\n');
    lemma_no_char("multikino"@, '\n');
    lemma_no_char("user_preferences"@, '\n');
    lemma_no_char("default_venues"@, '\n');
}

proof fn lemma_section_clean(name: Seq<char>)
    requires
        !name.contains('\n'),
    ensures
        !(seq!['['] + name + seq![']']).contains('\n'),
        strip_cr(seq!['['] + name + seq![']']) == seq!['['] + name + seq![']'],
{
    assert(!seq!['['].contains('\n')) by {
        if seq!['['].contains('\n') {
            let k = choose|k: int| 0 <= k < 1 && seq!['['][k] == '\n';
        }
    }
    assert(!seq![']'].contains('\n')) by {
        if seq![']'].contains('\n') {
            let k = choose|k: int| 0 <= k < 1 && seq![']'][k] == '\n';
        }
    }
    lemma_concat_lacks(seq!['['], name, '\n');
    lemma_concat_lacks(seq!['['] + name, seq![']'], '\n');
    assert((seq!['['] + name + seq![']']).last() == ']');
}

proof fn lemma_file_lines(s: Settings)
    requires
        roundtrip_safe(s),
    ensures
        text_lines(settings_text(s)) == settings_lines(s),
{
    let p = s.user_preferences;
    let lines = settings_lines(s);
    lemma_file_literals();
    lemma_chain_text_clean(p.default_chain);
    lemma_optional_clean(p.tmdb_access_token);
    lemma_optional_clean(p.default_venues.cinema_city);
    lemma_optional_clean(p.default_venues.helios);
    lemma_optional_clean(p.default_venues.multikino);
    lemma_key_line("default_chain"@, chain_id_seq(p.default_chain));
    lemma_key_line("default_day"@, p.default_day@);
    lemma_key_line("tmdb_access_token"@, or_empty(opt_view(p.tmdb_access_token)));
    lemma_key_line("cinema_city"@, or_empty(opt_view(p.default_venues.cinema_city)));
    lemma_key_line("helios"@, or_empty(opt_view(p.default_venues.helios)));
    lemma_key_line("multikino"@, or_empty(opt_view(p.default_venues.multikino)));
    lemma_section_clean("user_preferences"@);
    lemma_section_clean("default_venues"@);
    assert(!Seq::<char>::empty().contains('\n'));
    assert forall|i: int| 0 <= i < lines.len() implies !(#[trigger] lines[i]).contains('\n') by {}
    assert forall|i: int| 0 <= i < lines.len() implies strip_cr(#[trigger] lines[i]) == lines[i] by {}
    lemma_text_lines_terminated(lines);
}

#[verifier::rlimit(60)]
proof fn lemma_file_venue_entries(s: Settings)
    requires
        roundtrip_safe(s),
    ensures
        ini_entries(settings_lines(s).subrange(5, 9), Some("user_preferences"@)) == Some(seq![
            ("default_venues"@, "cinema_city"@, or_empty(opt_view(s.user_preferences.default_venues.cinema_city))),
            ("default_venues"@, "helios"@, or_empty(opt_view(s.user_preferences.default_venues.helios))),
            ("default_venues"@, "multikino"@, or_empty(opt_view(s.user_preferences.default_venues.multikino))),
        ]),
{
    let p = s.user_preferences;
    let lines = settings_lines(s);
    let up = "user_preferences"@;
    let dv = "default_venues"@;
    let v1 = or_empty(opt_view(p.default_venues.cinema_city));
    let v2 = or_empty(opt_view(p.default_venues.helios));
    let v3 = or_empty(opt_view(p.default_venues.multikino));
    lemma_file_literals();
    lemma_optional_clean(p.default_venues.cinema_city);
    lemma_optional_clean(p.default_venues.helios);
    lemma_optional_clean(p.default_venues.multikino);
    lemma_entry_line("cinema_city"@, v1, dv);
    lemma_entry_line("helios"@, v2, dv);
    lemma_entry_line("multikino"@, v3, dv);
    lemma_section_line(dv, Some(up));
    let n = lines.len() as int;
    let e6 = (dv, "cinema_city"@, v1);
    let e7 = (dv, "helios"@, v2);
    let e8 = (dv, "multikino"@, v3);
    let none = Seq::<(Seq<char>, Seq<char>, Seq<char>)>::empty();
    assert(lines.subrange(9, n) =~= Seq::<Seq<char>>::empty());
    lemma_entries_step(lines, 8, Some(dv), Some(dv), Some(e8), none);
    let t8 = seq![e8] + none;
    lemma_entries_step(lines, 7, Some(dv), Some(dv), Some(e7), t8);
    let t7 = seq![e7] + t8;
    lemma_entries_step(lines, 6, Some(dv), Some(dv), Some(e6), t7);
    let t6 = seq![e6] + t7;
    lemma_entries_step(lines, 5, Some(up), Some(dv), None, t6);
    assert(lines.subrange(5, n) =~= lines.subrange(5, 9));
    assert(t6 =~= seq![e6, e7, e8]);
}

#[verifier::rlimit(60)]
proof fn lemma_file_entries(s: Settings)
    requires
        roundtrip_safe(s),
    ensures
        ini_entries(settings_lines(s), None) == Some(settings_entries(s)),
{
    let p = s.user_preferences;
    let lines = settings_lines(s);
    let up = "user_preferences"@;
    let dv = "default_venues"@;
    let chain = chain_id_seq(p.default_chain);
    let day = p.default_day@;
    let token = or_empty(opt_view(p.tmdb_access_token));
    lemma_file_venue_entries(s);
    lemma_file_literals();
    lemma_chain_text_clean(p.default_chain);
    lemma_optional_clean(p.tmdb_access_token);
    lemma_entry_line("default_chain"@, chain, up);
    lemma_entry_line("default_day"@, day, up);
    lemma_entry_line("tmdb_access_token"@, token, up);
    lemma_section_line(up, None);
    lemma_blank_line(Some(up));
    let n = lines.len() as int;
    let e1 = (up, "default_chain"@, chain);
    let e2 = (up, "default_day"@, day);
    let e3 = (up, "tmdb_access_token"@, token);
    let t6 = seq![
        (dv, "cinema_city"@, or_empty(opt_view(p.default_venues.cinema_city))),
        (dv, "helios"@, or_empty(opt_view(p.default_venues.helios))),
        (dv, "multikino"@, or_empty(opt_view(p.default_venues.multikino))),
    ];
    assert(lines.subrange(5, n) =~= lines.subrange(5, 9));
    lemma_entries_step(lines, 4, Some(up), Some(up), None, t6);
    lemma_entries_step(lines, 3, Some(up), Some(up), Some(e3), t6);
    let t3 = seq![e3] + t6;
    lemma_entries_step(lines, 2, Some(up), Some(up), Some(e2), t3);
    let t2 = seq![e2] + t3;
    lemma_entries_step(lines, 1, Some(up), Some(up), Some(e1), t2);
    let t1 = seq![e1] + t2;
    lemma_entries_step(lines, 0, None, Some(up), None, t1);
    assert(lines.subrange(0, n) =~= lines);
    assert(t1 =~= settings_entries(s));
}

proof fn lemma_entry_lookups(s: Settings)
    ensures
        ini_value(settings_entries(s), "user_preferences"@, "default_chain"@) == Some(chain_id_seq(s.user_preferences.default_chain)),
        ini_value(settings_entries(s), "user_preferences"@, "default_day"@) == Some(s.user_preferences.default_day@),
        ini_value(settings_entries(s), "user_preferences"@, "tmdb_access_token"@) == Some(or_empty(opt_view(s.user_preferences.tmdb_access_token))),
        ini_value(settings_entries(s), "default_venues"@, "cinema_city"@) == Some(or_empty(opt_view(s.user_preferences.default_venues.cinema_city))),
        ini_value(settings_entries(s), "default_venues"@, "helios"@) == Some(or_empty(opt_view(s.user_preferences.default_venues.helios))),
        ini_value(settings_entries(s), "default_venues"@, "multikino"@) == Some(or_empty(opt_view(s.user_preferences.default_venues.multikino))),
{
    reveal_strlit("user_preferences");
    reveal_strlit("default_venues");
    reveal_strlit("default_chain");
    reveal_strlit("default_day");
    reveal_strlit("tmdb_access_token");
    reveal_strlit("cinema_city");
    reveal_strlit("helios");
    reveal_strlit("multikino");
    let e = settings_entries(s);
    assert(e.subrange(0, 6) =~= e);
    assert(e.subrange(0, 6).drop_last() =~= e.subrange(0, 5));
    assert(e.subrange(0, 5).drop_last() =~= e.subrange(0, 4));
    assert(e.subrange(0, 4).drop_last() =~= e.subrange(0, 3));
    assert(e.subrange(0, 3).drop_last() =~= e.subrange(0, 2));
    assert(e.subrange(0, 2).drop_last() =~= e.subrange(0, 1));
    assert("user_preferences"@.len() == 16 && "default_venues"@.len() == 14);
    assert("default_chain"@.len() == 13 && "default_day"@.len() == 11 && "tmdb_access_token"@.len() == 17);
    assert("cinema_city"@.len() == 11 && "helios"@.len() == 6 && "multikino"@.len() == 9);
    assert("user_preferences"@ != "default_venues"@);
    assert("default_chain"@ != "default_day"@);
    assert("default_chain"@ != "tmdb_access_token"@);
    assert("default_day"@ != "tmdb_access_token"@);
    assert("cinema_city"@ != "helios"@);
    assert("cinema_city"@ != "multikino"@);
    assert("helios"@ != "multikino"@);
    reveal_with_fuel(ini_value, 7);
}

/// Settings written to `config.ini` and read back are the settings that were written: the
/// file's entries are those of the settings, its default chain is a supported chain, and
/// whatever settings the reading makes of those entries equal the written ones (for settings
/// whose values the file keeps as they are, see `roundtrip_safe`).
pub proof fn lemma_settings_roundtrip(s: Settings)
    requires
        roundtrip_safe(s),
    ensures
        ini_spec(settings_text(s)) == Some(settings_entries(s)),
        ini_value(settings_entries(s), "user_preferences"@, "default_chain"@) == Some(chain_id_seq(s.user_preferences.default_chain)),
        chain_for_input(chain_id_seq(s.user_preferences.default_chain)) == Some(s.user_preferences.default_chain),
        forall|read: Settings| #[trigger] settings_from_entries_ok(settings_entries(s), read) ==> settings_view(read) == settings_view(s),
{
    lemma_file_lines(s);
    lemma_file_entries(s);
    lemma_entry_lookups(s);
    lemma_chain_id_roundtrip(s.user_preferences.default_chain);
    let p = s.user_preferences;
    lemma_optional_clean(p.tmdb_access_token);
    lemma_optional_clean(p.default_venues.cinema_city);
    lemma_optional_clean(p.default_venues.helios);
    lemma_optional_clean(p.default_venues.multikino);
    assert(default_day_spec(p.default_day@) == p.default_day@);
    assert forall|read: Settings| #[trigger] settings_from_entries_ok(settings_entries(s), read) implies settings_view(read) == settings_view(s) by {
        assert(read.user_preferences.default_chain == p.default_chain);
    }
}

} // verus!
