//! The user's settings: what they hold, how `config.ini` is read and written, and the rules
//! that decide when the first-run configuration is needed.
use crate::common::{normalized_optional, opt_view, split_once_eq, split_once_eq_exec, string_views};
use crate::domain::{section_name_seq, CinemaChainId};
use crate::error::{AppError, AppResult};
use crate::text::{
    chars_eq, chars_of, contains_str, eq_str, lower_seq, push_str, split_on, split_seq,
    string_of, to_ascii_lowercase, trim, trim_seq, views_of,
};
use vstd::prelude::*;

verus! {

pub const CONFIG_FILE_NAME: &'static str = "config.ini";

pub const DEFAULT_DAY_CHOICES: [&'static str; 2] = ["dziś", "jutro"];

pub const HELP_AND_COMPLETION_FLAGS: [&'static str; 4] = ["-h", "--help", "--install-completion", "--show-completion"];

pub const DEFAULT_CINEMA_CITY_REPERTOIRE_URL: &'static str = "https://www.cinema-city.pl/#/buy-tickets-by-cinema?in-cinema={cinema_venue_id}&at={repertoire_date}";

pub const DEFAULT_CINEMA_CITY_VENUES_LIST_URL: &'static str = "https://www.cinema-city.pl/#/buy-tickets-by-cinema";

/// The venue used by default for each chain.
#[derive(Debug, Clone, PartialEq, Eq)]
pub struct DefaultVenues {
    pub cinema_city: Option<String>,
    pub helios: Option<String>,
    pub multikino: Option<String>,
}

impl DefaultVenues {
    /// The default venue of a chain, as a view.
    pub open spec fn venue_of(&self, chain_id: CinemaChainId) -> Option<Seq<char>> {
        match chain_id {
            CinemaChainId::CinemaCity => opt_view(self.cinema_city),
            CinemaChainId::Helios => opt_view(self.helios),
            CinemaChainId::Multikino => opt_view(self.multikino),
        }
    }

    pub fn get(&self, chain_id: CinemaChainId) -> (r: Option<&str>)
        ensures
            match r {
                Some(s) => self.venue_of(chain_id) == Some(s@),
                None => self.venue_of(chain_id) is None,
            },
    {
        let v = match chain_id {
            CinemaChainId::CinemaCity => &self.cinema_city,
            CinemaChainId::Helios => &self.helios,
            CinemaChainId::Multikino => &self.multikino,
        };
        match v {
            Some(s) => Some(s.as_str()),
            None => None,
        }
    }

    pub fn set(&mut self, chain_id: CinemaChainId, value: Option<String>)
        ensures
            final(self).venue_of(chain_id) == opt_view(value),
            forall|other: CinemaChainId| other != chain_id ==> final(self).venue_of(other) == old(self).venue_of(other),
    {
        match chain_id {
            CinemaChainId::CinemaCity => self.cinema_city = value,
            CinemaChainId::Helios => self.helios = value,
            CinemaChainId::Multikino => self.multikino = value,
        }
    }
}

impl Default for DefaultVenues {
    fn default() -> (r: Self)
        ensures
            r.cinema_city is None,
            r.helios is None,
            r.multikino is None,
    {
        DefaultVenues { cinema_city: None, helios: None, multikino: None }
    }
}

/// What the user chose.
#[derive(Debug, Clone, PartialEq, Eq)]
pub struct UserPreferences {
    pub default_chain: CinemaChainId,
    pub default_day: String,
    pub tmdb_access_token: Option<String>,
    pub default_venues: DefaultVenues,
}

impl Default for UserPreferences {
    fn default() -> (r: Self)
        ensures
            r.default_chain == CinemaChainId::CinemaCity,
            r.default_day@ == "dziś"@,
            r.tmdb_access_token is None,
            r.default_venues.cinema_city is None,
            r.default_venues.helios is None,
            r.default_venues.multikino is None,
    {
        UserPreferences {
            default_chain: CinemaChainId::CinemaCity,
            default_day: "dziś".to_owned(),
            tmdb_access_token: None,
            default_venues: DefaultVenues::default(),
        }
    }
}

/// Where a chain's pages are.
#[derive(Debug, Clone, PartialEq, Eq)]
pub struct CinemaChainSettings {
    pub repertoire_url: String,
    pub venues_list_url: String,
}

impl Default for CinemaChainSettings {
    fn default() -> (r: Self)
        ensures
            r.repertoire_url@ == DEFAULT_CINEMA_CITY_REPERTOIRE_URL@,
            r.venues_list_url@ == DEFAULT_CINEMA_CITY_VENUES_LIST_URL@,
    {
        CinemaChainSettings {
            repertoire_url: DEFAULT_CINEMA_CITY_REPERTOIRE_URL.to_owned(),
            venues_list_url: DEFAULT_CINEMA_CITY_VENUES_LIST_URL.to_owned(),
        }
    }
}

/// The page settings of the chains that read pages by URL template.
#[derive(Debug, Clone, PartialEq, Eq)]
pub struct CinemaChainsSettings {
    pub cinema_city: CinemaChainSettings,
}

impl Default for CinemaChainsSettings {
    fn default() -> (r: Self)
        ensures
            r.cinema_city.repertoire_url@ == DEFAULT_CINEMA_CITY_REPERTOIRE_URL@,
            r.cinema_city.venues_list_url@ == DEFAULT_CINEMA_CITY_VENUES_LIST_URL@,
    {
        CinemaChainsSettings { cinema_city: CinemaChainSettings::default() }
    }
}

impl CinemaChainsSettings {
    /// The page settings of a chain, for the chains that have them.
    pub fn get(&self, chain_id: CinemaChainId) -> (r: Option<&CinemaChainSettings>)
        ensures
            chain_id == CinemaChainId::CinemaCity ==> r == Some(&self.cinema_city),
            chain_id != CinemaChainId::CinemaCity ==> r is None,
    {
        match chain_id {
            CinemaChainId::CinemaCity => Some(&self.cinema_city),
            _ => None,
        }
    }
}

/// Everything the tool is configured with.
#[derive(Debug, Clone, PartialEq, Eq)]
pub struct Settings {
    pub user_preferences: UserPreferences,
}

impl Settings {
    /// The settings before any configuration.
    pub fn default_settings() -> (r: Self)
        ensures
            r.user_preferences.default_chain == CinemaChainId::CinemaCity,
            r.user_preferences.default_day@ == "dziś"@,
            r.user_preferences.tmdb_access_token is None,
            r.user_preferences.default_venues.cinema_city is None,
            r.user_preferences.default_venues.helios is None,
            r.user_preferences.default_venues.multikino is None,
    {
        Settings { user_preferences: UserPreferences::default() }
    }

    pub fn get_default_venue(&self, chain_id: CinemaChainId) -> (r: Option<&str>)
        ensures
            match r {
                Some(s) => self.user_preferences.default_venues.venue_of(chain_id) == Some(s@),
                None => self.user_preferences.default_venues.venue_of(chain_id) is None,
            },
    {
        self.user_preferences.default_venues.get(chain_id)
    }
}

/// One option of a selection prompt: what is shown, and what it stands for.
#[derive(Debug, Clone, PartialEq, Eq)]
pub struct SelectionChoice {
    pub title: String,
    pub value: String,
}

/// How the configuration asks the user.
pub trait PromptAdapter {
    fn select(&self, message: &str, choices: &[SelectionChoice], default: Option<&str>) -> AppResult<String>;

    fn text(&self, message: &str, default: &str) -> AppResult<String>;
}

/// The position of the choice whose value is `default`, else the first.
pub open spec fn default_choice_index_spec(choices: Seq<SelectionChoice>, default: Option<Seq<char>>) -> int {
    match default {
        Some(d) => if exists|i: int| 0 <= i < choices.len() && choices[i].value@ == d {
            choose|i: int| 0 <= i < choices.len() && choices[i].value@ == d && forall|j: int| 0 <= j < i ==> choices[j].value@ != d
        } else {
            0
        },
        None => 0,
    }
}

pub fn default_choice_index(choices: &[SelectionChoice], default: Option<&str>) -> (r: usize)
    ensures
        r == default_choice_index_spec(choices@, match default {
            Some(d) => Some(d@),
            None => None,
        }),
{
    let d = match default {
        Some(d) => d,
        None => return 0,
    };
    let mut i: usize = 0;
    while i < choices.len()
        invariant
            i <= choices@.len(),
            default == Some(d),
            forall|j: int| 0 <= j < i ==> choices@[j].value@ != d@,
        decreases choices.len() - i,
    {
        if eq_str(chars_of(choices[i].value.as_str()).as_slice(), d) {
            return i;
        }
        i = i + 1;
    }
    0
}

/// The error of a configuration that cannot write to the tool's directory: a missing
/// permission asks for the tool to be run with higher permissions; any other failure reports
/// what the system said.
pub fn write_access_error(directory: &str, permission_denied: bool, detail: &str) -> (r: AppError)
    ensures
        permission_denied ==> (r matches AppError::Configuration(m) && m@ == "Brak uprawnień do zapisu w katalogu aplikacji: "@
            + directory@ + ". Uruchom aplikację z podwyższonymi uprawnieniami lub przenieś ją do katalogu z prawem zapisu."@),
        !permission_denied ==> (r matches AppError::Configuration(m) && m@ == "Nie udało się zapisać w katalogu aplikacji: "@
            + directory@ + ": "@ + detail@),
{
    if permission_denied {
        let mut v = chars_of("Brak uprawnień do zapisu w katalogu aplikacji: ");
        push_str(&mut v, directory);
        push_str(&mut v, ". Uruchom aplikację z podwyższonymi uprawnieniami lub przenieś ją do katalogu z prawem zapisu.");
        AppError::Configuration(string_of(v.as_slice()))
    } else {
        let mut v = chars_of("Nie udało się zapisać w katalogu aplikacji: ");
        push_str(&mut v, directory);
        push_str(&mut v, ": ");
        push_str(&mut v, detail);
        AppError::Configuration(string_of(v.as_slice()))
    }
}

/// What a failed prompt means: an interruption aborts the configuration, anything else is a
/// configuration error with the prompt's message.
pub fn map_prompt_error(message: String) -> (r: AppError)
    ensures
        crate::text::contains_seq(lower_seq(message@), "interrupted"@) ==> r == AppError::ConfigurationAborted,
        !crate::text::contains_seq(lower_seq(message@), "interrupted"@) ==> r == AppError::Configuration(message),
{
    let lowered = to_ascii_lowercase(chars_of(message.as_str()).as_slice());
    if contains_str(lowered.as_slice(), "interrupted") {
        AppError::ConfigurationAborted
    } else {
        AppError::Configuration(message)
    }
}

/// Help and completion flags, or a shell-completion request in the environment, need no
/// configuration.
pub open spec fn skip_bootstrap_spec(argv: Seq<Seq<char>>, env_keys: Seq<Seq<char>>) -> bool {
    (exists|i: int| 0 <= i < argv.len() && (argv[i] == "-h"@ || argv[i] == "--help"@ || argv[i] == "--install-completion"@ || argv[i] == "--show-completion"@))
        || (exists|i: int| 0 <= i < env_keys.len() && crate::text::ends_with_seq(env_keys[i], "_COMPLETE"@))
}

pub fn should_skip_bootstrap(argv: &Vec<String>, env_keys: &Vec<String>) -> (r: bool)
    ensures
        r == skip_bootstrap_spec(string_views(argv@), string_views(env_keys@)),
{
    let mut i: usize = 0;
    while i < argv.len()
        invariant
            i <= argv@.len(),
            forall|j: int| 0 <= j < i ==> !(string_views(argv@)[j] == "-h"@ || string_views(argv@)[j] == "--help"@
                || string_views(argv@)[j] == "--install-completion"@ || string_views(argv@)[j] == "--show-completion"@),
        decreases argv.len() - i,
    {
        let a = chars_of(argv[i].as_str());
        assert(string_views(argv@)[i as int] == a@);
        if eq_str(a.as_slice(), "-h") || eq_str(a.as_slice(), "--help") || eq_str(a.as_slice(), "--install-completion")
            || eq_str(a.as_slice(), "--show-completion") {
            return true;
        }
        i = i + 1;
    }
    let suffix = chars_of("_COMPLETE");
    let mut k: usize = 0;
    while k < env_keys.len()
        invariant
            k <= env_keys@.len(),
            suffix@ == "_COMPLETE"@,
            forall|j: int| 0 <= j < argv@.len() ==> !(string_views(argv@)[j] == "-h"@ || string_views(argv@)[j] == "--help"@
                || string_views(argv@)[j] == "--install-completion"@ || string_views(argv@)[j] == "--show-completion"@),
            forall|j: int| 0 <= j < k ==> !crate::text::ends_with_seq(#[trigger] string_views(env_keys@)[j], "_COMPLETE"@),
        decreases env_keys.len() - k,
    {
        let key = chars_of(env_keys[k].as_str());
        assert(string_views(env_keys@)[k as int] == key@);
        if crate::text::ends_with(key.as_slice(), suffix.as_slice()) {
            return true;
        }
        k = k + 1;
    }
    false
}

/// The first argument that is not a flag names the `configure` command.
pub open spec fn defer_bootstrap_spec(argv: Seq<Seq<char>>) -> bool {
    exists|i: int| 0 <= i < argv.len() && !crate::text::starts_with_seq(argv[i], "-"@) && (forall|j: int| 0 <= j < i ==> crate::text::starts_with_seq(#[trigger] argv[j], "-"@))
        && argv[i] == "configure"@
}

pub fn should_defer_bootstrap_to_command(argv: &Vec<String>) -> (r: bool)
    ensures
        r == defer_bootstrap_spec(string_views(argv@)),
{
    let dash = chars_of("-");
    let mut i: usize = 0;
    while i < argv.len()
        invariant
            i <= argv@.len(),
            dash@ == "-"@,
            forall|j: int| 0 <= j < i ==> crate::text::starts_with_seq(#[trigger] string_views(argv@)[j], "-"@),
        decreases argv.len() - i,
    {
        let a = chars_of(argv[i].as_str());
        assert(string_views(argv@)[i as int] == a@);
        if !crate::text::starts_with(a.as_slice(), dash.as_slice()) {
            let r = eq_str(a.as_slice(), "configure");
            proof {
                if !r {
                    assert forall|m: int| 0 <= m < string_views(argv@).len() && !crate::text::starts_with_seq(string_views(argv@)[m], "-"@)
                        && (forall|j: int| 0 <= j < m ==> crate::text::starts_with_seq(#[trigger] string_views(argv@)[j], "-"@))
                        implies string_views(argv@)[m] != "configure"@ by {
                        if m < i {
                        } else if m > i {
                            assert(crate::text::starts_with_seq(string_views(argv@)[i as int], "-"@));
                        }
                    }
                }
            }
            return r;
        }
        i = i + 1;
    }
    false
}


/// A line without a carriage return at its end.
pub open spec fn strip_cr(line: Seq<char>) -> Seq<char> {
    if line.len() > 0 && line.last() == '\r' {
        line.drop_last()
    } else {
        line
    }
}

/// The lines of a text (`str::lines`): split at line feeds, without the empty piece after a
/// final line feed, each without a trailing carriage return.
pub open spec fn text_lines(s: Seq<char>) -> Seq<Seq<char>> {
    if s.len() == 0 {
        Seq::empty()
    } else {
        let parts = split_seq(s, seq!['\n']);
        let kept = if s.last() == '\n' {
            parts.drop_last()
        } else {
            parts
        };
        kept.map_values(|l: Seq<char>| strip_cr(l))
    }
}

pub fn lines_of(s: &[char]) -> (r: Vec<Vec<char>>)
    ensures
        views_of(r@) == text_lines(s@),
{
    if s.len() == 0 {
        let empty: Vec<Vec<char>> = Vec::new();
        assert(views_of(empty@) =~= text_lines(s@));
        return empty;
    }
    let mut seps: Vec<char> = Vec::new();
    seps.push('\n');
    assert(seps@ =~= seq!['\n']);
    let mut parts = split_on(s, seps.as_slice());
    let ghost all = views_of(parts@);
    if s[s.len() - 1] == '\n' {
        proof {
            crate::text::lemma_split_nonempty(s@, seq!['\n']);
        }
        let _ = parts.pop();
        assert(views_of(parts@) =~= all.drop_last());
    }
    let ghost kept = views_of(parts@);
    let mut out: Vec<Vec<char>> = Vec::new();
    let mut i: usize = 0;
    while i < parts.len()
        invariant
            i <= parts@.len(),
            kept == views_of(parts@),
            views_of(out@) == kept.subrange(0, i as int).map_values(|l: Seq<char>| strip_cr(l)),
        decreases parts.len() - i,
    {
        let line = &parts[i];
        let stripped = if line.len() > 0 && line[line.len() - 1] == '\r' {
            crate::text::copy_range(line.as_slice(), 0, line.len() - 1)
        } else {
            crate::text::copy_range(line.as_slice(), 0, line.len())
        };
        proof {
            assert(kept[i as int] == line@);
            assert(line@.subrange(0, line@.len() as int) =~= line@);
            if line@.len() > 0 && line@.last() == '\r' {
                assert(line@.subrange(0, line@.len() - 1) =~= line@.drop_last());
            }
        }
        let ghost before = views_of(out@);
        out.push(stripped);
        assert(views_of(out@) =~= before.push(strip_cr(kept[i as int])));
        assert(kept.subrange(0, i + 1).map_values(|l: Seq<char>| strip_cr(l)) =~= kept.subrange(0, i as int).map_values(|l: Seq<char>| strip_cr(l)).push(strip_cr(kept[i as int])));
        i = i + 1;
    }
    assert(kept.subrange(0, kept.len() as int) =~= kept);
    out
}

/// A `key = value` line of a section.
#[derive(Debug, Clone, PartialEq, Eq)]
pub struct IniEntry {
    pub section: String,
    pub key: String,
    pub value: String,
}

pub open spec fn entry_view(e: IniEntry) -> (Seq<char>, Seq<char>, Seq<char>) {
    (e.section@, e.key@, e.value@)
}

pub open spec fn entry_views(v: Seq<IniEntry>) -> Seq<(Seq<char>, Seq<char>, Seq<char>)> {
    v.map_values(|e: IniEntry| entry_view(e))
}

/// What one line does, given the section it is in: blank lines and comments (`#`, `;`) do
/// nothing, `[name]` opens a section, `key = value` adds an entry to the open section; any
/// other line, or an entry outside every section, makes the file invalid.
pub open spec fn ini_line(line: Seq<char>, current: Option<Seq<char>>) -> Option<(Option<Seq<char>>, Option<(Seq<char>, Seq<char>, Seq<char>)>)> {
    let t = trim_seq(line);
    if t.len() == 0 || t[0] == '#' || t[0] == ';' {
        Some((current, None))
    } else if t[0] == '[' && t.last() == ']' {
        Some((Some(trim_seq(t.subrange(1, t.len() - 1))), None))
    } else {
        match current {
            None => None,
            Some(section) => match split_once_eq(t) {
                None => None,
                Some((k, v)) => Some((current, Some((section, trim_seq(k), trim_seq(v))))),
            },
        }
    }
}

/// The entries of the lines, in order, or nothing when a line is invalid.
pub open spec fn ini_entries(lines: Seq<Seq<char>>, current: Option<Seq<char>>) -> Option<Seq<(Seq<char>, Seq<char>, Seq<char>)>>
    decreases lines.len(),
{
    if lines.len() == 0 {
        Some(Seq::empty())
    } else {
        match ini_line(lines[0], current) {
            None => None,
            Some((next, entry)) => match ini_entries(lines.drop_first(), next) {
                None => None,
                Some(rest) => Some(
                    match entry {
                        Some(e) => seq![e] + rest,
                        None => rest,
                    },
                ),
            },
        }
    }
}

/// The entries of an INI text.
pub open spec fn ini_spec(content: Seq<char>) -> Option<Seq<(Seq<char>, Seq<char>, Seq<char>)>> {
    ini_entries(text_lines(content), None)
}

pub open spec fn opt_chars(v: Option<Vec<char>>) -> Option<Seq<char>> {
    match v {
        Some(c) => Some(c@),
        None => None,
    }
}

pub fn parse_ini(content: &str) -> (r: Option<Vec<IniEntry>>)
    ensures
        match r {
            Some(v) => ini_spec(content@) == Some(entry_views(v@)),
            None => ini_spec(content@) is None,
        },
{
    let lines = lines_of(chars_of(content).as_slice());
    let ghost all = views_of(lines@);
    let mut entries: Vec<IniEntry> = Vec::new();
    let mut current: Option<Vec<char>> = None;
    let mut i: usize = 0;
    proof {
        assert(all.subrange(0, all.len() as int) =~= all);
        match ini_entries(all, None) {
            Some(rest) => {
                assert(entry_views(entries@) + rest =~= rest);
            },
            None => {},
        }
    }
    while i < lines.len()
        invariant
            i <= lines@.len(),
            all == views_of(lines@),
            all == text_lines(content@),
            ini_spec(content@) == match ini_entries(all.subrange(i as int, all.len() as int), opt_chars(current)) {
                Some(rest) => Some(entry_views(entries@) + rest),
                None => None,
            },
        decreases lines.len() - i,
    {
        let ghost rest = all.subrange(i as int, all.len() as int);
        let ghost cur = opt_chars(current);
        assert(rest[0] == lines@[i as int]@);
        assert(rest.drop_first() =~= all.subrange(i + 1, all.len() as int));
        let t = trim(lines[i].as_slice());
        if t.len() == 0 || t[0] == '#' || t[0] == ';' {
            i = i + 1;
            continue;
        }
        if t[0] == '[' && t[t.len() - 1] == ']' {
            let inner = crate::text::copy_range(t.as_slice(), 1, t.len() - 1);
            current = Some(trim(inner.as_slice()));
            i = i + 1;
            continue;
        }
        let section = match &current {
            Some(c) => c,
            None => return None,
        };
        let (k, v) = match split_once_eq_exec(t.as_slice()) {
            Some(p) => p,
            None => return None,
        };
        let entry = IniEntry {
            section: string_of(section.as_slice()),
            key: string_of(trim(k.as_slice()).as_slice()),
            value: string_of(trim(v.as_slice()).as_slice()),
        };
        let ghost before = entry_views(entries@);
        entries.push(entry);
        assert(entry_views(entries@) =~= before.push(entry_view(entries@.last())));
        proof {
            let e = entry_view(entries@.last());
            match ini_entries(all.subrange(i + 1, all.len() as int), cur) {
                Some(r2) => {
                    assert(before + (seq![e] + r2) =~= before.push(e) + r2);
                },
                None => {},
            }
        }
        i = i + 1;
    }
    assert(all.subrange(i as int, all.len() as int) =~= Seq::<Seq<char>>::empty());
    assert(entry_views(entries@) + Seq::<(Seq<char>, Seq<char>, Seq<char>)>::empty() =~= entry_views(entries@));
    Some(entries)
}

/// The value of the last entry for `key` in `section`.
pub open spec fn ini_value(entries: Seq<(Seq<char>, Seq<char>, Seq<char>)>, section: Seq<char>, key: Seq<char>) -> Option<Seq<char>>
    decreases entries.len(),
{
    if entries.len() == 0 {
        None
    } else if entries.last().0 == section && entries.last().1 == key {
        Some(entries.last().2)
    } else {
        ini_value(entries.drop_last(), section, key)
    }
}

pub fn lookup_ini_value(entries: &Vec<IniEntry>, section: &str, key: &str) -> (r: Option<String>)
    ensures
        opt_view(r) == ini_value(entry_views(entries@), section@, key@),
{
    let mut i: usize = entries.len();
    assert(entry_views(entries@).subrange(0, entries@.len() as int) =~= entry_views(entries@));
    while i > 0
        invariant
            i <= entries@.len(),
            ini_value(entry_views(entries@), section@, key@) == ini_value(entry_views(entries@).subrange(0, i as int), section@, key@),
        decreases i,
    {
        let e = &entries[i - 1];
        let ghost pre = entry_views(entries@).subrange(0, i as int);
        assert(pre.last() == entry_view(entries@[i - 1]));
        assert(pre.drop_last() =~= entry_views(entries@).subrange(0, i - 1));
        if eq_str(chars_of(e.section.as_str()).as_slice(), section) && eq_str(chars_of(e.key.as_str()).as_slice(), key) {
            return Some(e.value.clone());
        }
        i = i - 1;
    }
    None
}

/// The message for a configuration file that cannot be read as settings.
pub open spec fn unreadable_config_message() -> Seq<char> {
    "Nie udało się wczytać config.ini. Uruchom `quickrep configure`, aby odtworzyć konfigurację."@
}

/// The day words of older configurations in their current form.
pub open spec fn default_day_spec(value: Seq<char>) -> Seq<char> {
    if value == "today"@ {
        "dziś"@
    } else if value == "tomorrow"@ {
        "jutro"@
    } else {
        value
    }
}

pub fn normalize_default_day(value: &str) -> (r: String)
    ensures
        r@ == default_day_spec(value@),
{
    let v = chars_of(value);
    if eq_str(v.as_slice(), "today") {
        "dziś".to_owned()
    } else if eq_str(v.as_slice(), "tomorrow") {
        "jutro".to_owned()
    } else {
        value.to_owned()
    }
}

pub open spec fn or_empty(v: Option<Seq<char>>) -> Seq<char> {
    match v {
        Some(x) => x,
        None => Seq::empty(),
    }
}

/// What the settings read from INI entries are: the default chain is required; the default
/// day defaults to today; the token and the default venues are optional and blank values
/// count as missing.
pub open spec fn settings_from_entries_ok(entries: Seq<(Seq<char>, Seq<char>, Seq<char>)>, s: Settings) -> bool {
    let prefs = s.user_preferences;
    &&& ini_value(entries, "user_preferences"@, "default_chain"@) matches Some(c) && crate::domain::chain_for_input(c) == Some(prefs.default_chain)
    &&& prefs.default_day@ == default_day_spec(match ini_value(entries, "user_preferences"@, "default_day"@) {
        Some(d) => d,
        None => "today"@,
    })
    &&& opt_view(prefs.tmdb_access_token) == normalized_optional(Some(or_empty(ini_value(entries, "user_preferences"@, "tmdb_access_token"@))))
    &&& opt_view(prefs.default_venues.cinema_city) == normalized_optional(Some(or_empty(ini_value(entries, "default_venues"@, "cinema_city"@))))
    &&& opt_view(prefs.default_venues.helios) == normalized_optional(Some(or_empty(ini_value(entries, "default_venues"@, "helios"@))))
    &&& opt_view(prefs.default_venues.multikino) == normalized_optional(Some(or_empty(ini_value(entries, "default_venues"@, "multikino"@))))
}

fn optional_setting(entries: &Vec<IniEntry>, section: &str, key: &str) -> (r: Option<String>)
    ensures
        opt_view(r) == normalized_optional(Some(or_empty(ini_value(entry_views(entries@), section@, key@)))),
{
    let raw = match lookup_ini_value(entries, section, key) {
        Some(v) => v,
        None => String::new(),
    };
    crate::common::normalize_optional_text(Some(raw))
}

fn unreadable_config_error() -> (r: AppError)
    ensures
        r matches AppError::Configuration(m) && m@ == unreadable_config_message(),
{
    AppError::configuration("Nie udało się wczytać config.ini. Uruchom `quickrep configure`, aby odtworzyć konfigurację.".to_owned())
}

/// The settings that `config.ini` holds.
pub fn parse_settings(content: &str) -> (r: AppResult<Settings>)
    ensures
        match ini_spec(content@) {
            None => r matches Err(AppError::Configuration(m)) && m@ == unreadable_config_message(),
            Some(entries) => match ini_value(entries, "user_preferences"@, "default_chain"@) {
                None => r matches Err(AppError::Configuration(m)) && m@ == unreadable_config_message(),
                Some(c) => match crate::domain::chain_for_input(c) {
                    None => r matches Err(AppError::UnsupportedCinemaChain { invalid_chain, .. }) && invalid_chain@ == c,
                    Some(_) => r matches Ok(s) && settings_from_entries_ok(entries, s),
                },
            },
        },
{
    let entries = match parse_ini(content) {
        Some(e) => e,
        None => return Err(unreadable_config_error()),
    };
    let chain_text = match lookup_ini_value(&entries, "user_preferences", "default_chain") {
        Some(c) => c,
        None => return Err(unreadable_config_error()),
    };
    let default_chain = match CinemaChainId::from_value(chain_text.as_str()) {
        Ok(c) => c,
        Err(e) => return Err(e),
    };
    let day_text = match lookup_ini_value(&entries, "user_preferences", "default_day") {
        Some(d) => d,
        None => "today".to_owned(),
    };
    let default_day = normalize_default_day(day_text.as_str());
    let tmdb_access_token = optional_setting(&entries, "user_preferences", "tmdb_access_token");
    let cinema_city = optional_setting(&entries, "default_venues", "cinema_city");
    let helios = optional_setting(&entries, "default_venues", "helios");
    let multikino = optional_setting(&entries, "default_venues", "multikino");
    Ok(Settings {
        user_preferences: UserPreferences {
            default_chain,
            default_day,
            tmdb_access_token,
            default_venues: DefaultVenues { cinema_city, helios, multikino },
        },
    })
}

pub open spec fn eq_sep() -> Seq<char> {
    seq![' ', '=', ' ']
}

/// The lines of `config.ini` for the settings: the preferences section, a blank line, and
/// the default venues section, each entry written `key = value` (an absent value as empty).
pub open spec fn settings_lines(s: Settings) -> Seq<Seq<char>> {
    let p = s.user_preferences;
    seq![
        seq!['['] + "user_preferences"@ + seq![']'],
        "default_chain"@ + eq_sep() + crate::domain::chain_id_seq(p.default_chain),
        "default_day"@ + eq_sep() + p.default_day@,
        "tmdb_access_token"@ + eq_sep() + or_empty(opt_view(p.tmdb_access_token)),
        Seq::<char>::empty(),
        seq!['['] + "default_venues"@ + seq![']'],
        "cinema_city"@ + eq_sep() + or_empty(opt_view(p.default_venues.cinema_city)),
        "helios"@ + eq_sep() + or_empty(opt_view(p.default_venues.helios)),
        "multikino"@ + eq_sep() + or_empty(opt_view(p.default_venues.multikino)),
    ]
}

/// The lines, each followed by a line feed.
pub open spec fn newline_terminated(lines: Seq<Seq<char>>) -> Seq<char>
    decreases lines.len(),
{
    if lines.len() == 0 {
        Seq::empty()
    } else {
        newline_terminated(lines.drop_last()) + lines.last() + seq!['\n']
    }
}

/// The text of `config.ini` for the settings.
pub open spec fn settings_text(s: Settings) -> Seq<char> {
    newline_terminated(settings_lines(s))
}

fn push_optional(v: &mut Vec<char>, value: &Option<String>)
    ensures
        final(v)@ == old(v)@ + or_empty(opt_view(*value)),
{
    match value {
        Some(t) => push_str(v, t.as_str()),
        None => {
            assert(old(v)@ + Seq::<char>::empty() =~= old(v)@);
        },
    }
}

fn push_line(v: &mut Vec<char>, key: &str, Ghost(value): Ghost<Seq<char>>, Ghost(lines): Ghost<Seq<Seq<char>>>, Ghost(k): Ghost<int>)
    requires
        0 <= k < lines.len(),
        old(v)@ == newline_terminated(lines.subrange(0, k)) + key@ + eq_sep() + value,
        lines[k] == key@ + eq_sep() + value,
    ensures
        final(v)@ == newline_terminated(lines.subrange(0, k + 1)),
{
    v.push('\n');
    assert(lines.subrange(0, k + 1).drop_last() =~= lines.subrange(0, k));
    assert(lines.subrange(0, k + 1).last() == lines[k]);
    assert(v@ =~= newline_terminated(lines.subrange(0, k + 1)));
}

pub fn render_settings(settings: &Settings) -> (r: String)
    ensures
        r@ == settings_text(*settings),
{
    let p = &settings.user_preferences;
    let ghost lines = settings_lines(*settings);
    let mut v: Vec<char> = Vec::new();
    assert(lines.subrange(0, 0) =~= Seq::<Seq<char>>::empty());
    push_str(&mut v, "[user_preferences]");
    v.push('\n');
    proof {
        reveal_strlit("[user_preferences]");
        reveal_strlit("user_preferences");
        assert(lines.subrange(0, 1).drop_last() =~= lines.subrange(0, 0));
        assert(newline_terminated(lines.subrange(0, 0)) =~= Seq::<char>::empty());
        assert(lines.subrange(0, 1).last() == lines[0]);
        assert(lines[0] =~= "[user_preferences]"@);
        assert(v@ =~= newline_terminated(lines.subrange(0, 1)));
    }
    push_str(&mut v, "default_chain = ");
    push_str(&mut v, p.default_chain.as_str());
    proof {
        reveal_strlit("default_chain = ");
        reveal_strlit("default_chain");
        assert(v@ =~= newline_terminated(lines.subrange(0, 1)) + "default_chain"@ + eq_sep() + crate::domain::chain_id_seq(p.default_chain));
    }
    push_line(&mut v, "default_chain", Ghost(crate::domain::chain_id_seq(p.default_chain)), Ghost(lines), Ghost(1));
    push_str(&mut v, "default_day = ");
    push_str(&mut v, p.default_day.as_str());
    proof {
        reveal_strlit("default_day = ");
        reveal_strlit("default_day");
        assert(v@ =~= newline_terminated(lines.subrange(0, 2)) + "default_day"@ + eq_sep() + p.default_day@);
    }
    push_line(&mut v, "default_day", Ghost(p.default_day@), Ghost(lines), Ghost(2));
    push_str(&mut v, "tmdb_access_token = ");
    push_optional(&mut v, &p.tmdb_access_token);
    proof {
        reveal_strlit("tmdb_access_token = ");
        reveal_strlit("tmdb_access_token");
        assert(v@ =~= newline_terminated(lines.subrange(0, 3)) + "tmdb_access_token"@ + eq_sep() + or_empty(opt_view(p.tmdb_access_token)));
    }
    push_line(&mut v, "tmdb_access_token", Ghost(or_empty(opt_view(p.tmdb_access_token))), Ghost(lines), Ghost(3));
    v.push('\n');
    proof {
        assert(lines.subrange(0, 5).drop_last() =~= lines.subrange(0, 4));
        assert(lines.subrange(0, 5).last() == Seq::<char>::empty());
        assert(v@ =~= newline_terminated(lines.subrange(0, 5)));
    }
    push_str(&mut v, "[default_venues]");
    v.push('\n');
    proof {
        reveal_strlit("[default_venues]");
        reveal_strlit("default_venues");
        assert(lines.subrange(0, 6).drop_last() =~= lines.subrange(0, 5));
        assert(lines.subrange(0, 6).last() == lines[5]);
        assert(v@ =~= newline_terminated(lines.subrange(0, 6)));
    }
    push_str(&mut v, "cinema_city = ");
    push_optional(&mut v, &p.default_venues.cinema_city);
    proof {
        reveal_strlit("cinema_city = ");
        reveal_strlit("cinema_city");
        assert(v@ =~= newline_terminated(lines.subrange(0, 6)) + "cinema_city"@ + eq_sep() + or_empty(opt_view(p.default_venues.cinema_city)));
    }
    push_line(&mut v, "cinema_city", Ghost(or_empty(opt_view(p.default_venues.cinema_city))), Ghost(lines), Ghost(6));
    push_str(&mut v, "helios = ");
    push_optional(&mut v, &p.default_venues.helios);
    proof {
        reveal_strlit("helios = ");
        reveal_strlit("helios");
        assert(v@ =~= newline_terminated(lines.subrange(0, 7)) + "helios"@ + eq_sep() + or_empty(opt_view(p.default_venues.helios)));
    }
    push_line(&mut v, "helios", Ghost(or_empty(opt_view(p.default_venues.helios))), Ghost(lines), Ghost(7));
    push_str(&mut v, "multikino = ");
    push_optional(&mut v, &p.default_venues.multikino);
    proof {
        reveal_strlit("multikino = ");
        reveal_strlit("multikino");
        assert(v@ =~= newline_terminated(lines.subrange(0, 8)) + "multikino"@ + eq_sep() + or_empty(opt_view(p.default_venues.multikino)));
    }
    push_line(&mut v, "multikino", Ghost(or_empty(opt_view(p.default_venues.multikino))), Ghost(lines), Ghost(8));
    assert(lines.subrange(0, 9) =~= lines);
    string_of(v.as_slice())
}
} // verus!
