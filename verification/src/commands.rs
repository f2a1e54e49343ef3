//! The decisions of the tool's commands: which chain, venue and date a command uses, how
//! the venue lists of all chains are gathered, and what the configuration records.
use crate::common::{normalize_optional_text, normalized_optional, opt_view, string_views};
use crate::config::{SelectionChoice, Settings};
use crate::domain::{
    chain_for_input, copy_venue, reordered, sort_venues_by_key, supported_chains_text, venue_view, venue_views,
    CinemaChainId, CinemaVenue,
};
use crate::error::{AppError, AppResult};
use crate::ordering::{key_views, text_order_of};
use crate::registry::{RegisteredCinemaChain, Registry};
use crate::text::{chars_of, contains_char, join, join_seq, push_str, string_of, to_lowercase, unicode_lowercase, views_of};
use vstd::prelude::*;

verus! {

/// The SQL `LIKE` pattern of a venue search: the text itself when it holds a `%`, else the
/// text anywhere in the name.
pub open spec fn venue_search_pattern_spec(search: Seq<char>) -> Seq<char> {
    if search.contains('%') { search } else { seq!['%'] + search + seq!['%'] }
}

pub fn venue_search_pattern(search: &str) -> (r: String)
    ensures
        r@ == venue_search_pattern_spec(search@),
{
    let s = chars_of(search);
    if contains_char(s.as_slice(), '%') {
        return search.to_owned();
    }
    let mut v: Vec<char> = Vec::new();
    v.push('%');
    crate::text::push_all(&mut v, s.as_slice());
    v.push('%');
    assert(v@ =~= seq!['%'] + search@ + seq!['%']);
    string_of(v.as_slice())
}

/// The one venue a search found; none found and several found are errors.
pub fn resolve_single_venue(found_venues: &Vec<CinemaVenue>) -> (r: AppResult<CinemaVenue>)
    ensures
        found_venues@.len() == 0 ==> r == Err::<CinemaVenue, AppError>(AppError::VenueNotFound),
        found_venues@.len() == 1 ==> (r matches Ok(v) && venue_view(v) == venue_view(found_venues@[0])),
        found_venues@.len() > 1 ==> r == Err::<CinemaVenue, AppError>(AppError::AmbiguousVenueMatch { matches_count: found_venues.len() }),
{
    if found_venues.len() == 0 {
        Err(AppError::VenueNotFound)
    } else if found_venues.len() == 1 {
        Ok(copy_venue(&found_venues[0]))
    } else {
        Err(AppError::AmbiguousVenueMatch { matches_count: found_venues.len() })
    }
}

/// The chain a command asks for: the one named on the command line (if it names one), else
/// the default one.
pub open spec fn requested_chain(chain: Option<String>, settings: Settings) -> Option<CinemaChainId> {
    match chain {
        Some(c) => chain_for_input(c@),
        None => Some(settings.user_preferences.default_chain),
    }
}

/// The chain a command uses: the one named on the command line, else the default one; it
/// must be registered.
pub fn resolve_chain(chain: Option<String>, settings: &Settings, registry: &Registry) -> (r: AppResult<RegisteredCinemaChain>)
    requires
        registry.wf(),
    ensures
        match chain {
            Some(c) => match chain_for_input(c@) {
                None => r matches Err(AppError::UnsupportedCinemaChain { invalid_chain, supported_chains })
                    && invalid_chain@ == c@ && supported_chains@ == supported_chains_text(),
                Some(id) => registry@.dom().contains(id) ==> (r matches Ok(rc) && rc.chain_id == id && rc.display_name@ == registry@[id]),
            },
            None => registry@.dom().contains(settings.user_preferences.default_chain) ==> (r matches Ok(rc)
                && rc.chain_id == settings.user_preferences.default_chain && rc.display_name@ == registry@[settings.user_preferences.default_chain]),
        },
        requested_chain(chain, *settings) is Some && !registry@.dom().contains(requested_chain(chain, *settings)->0)
            ==> (r matches Err(AppError::UnsupportedCinemaChain { invalid_chain, supported_chains })
            && invalid_chain@ == crate::domain::chain_id_seq(requested_chain(chain, *settings)->0) && supported_chains@ == supported_chains_text()),
{
    let chain_id = match chain {
        Some(c) => match CinemaChainId::from_value(c.as_str()) {
            Ok(id) => id,
            Err(e) => return Err(e),
        },
        None => settings.user_preferences.default_chain,
    };
    registry.get_registered_chain(chain_id)
}

/// The venue name a command uses: the one given, else the chain's default venue.
pub fn resolve_venue_name(venue_name: Option<String>, chain: &RegisteredCinemaChain, settings: &Settings) -> (r: AppResult<String>)
    ensures
        match venue_name {
            Some(v) => r == Ok::<String, AppError>(v),
            None => match settings.user_preferences.default_venues.venue_of(chain.chain_id) {
                Some(d) => r matches Ok(s) && s@ == d,
                None => r matches Err(AppError::DefaultVenueNotConfigured { chain_display_name }) && chain_display_name@ == chain.display_name@,
            },
        },
{
    match venue_name {
        Some(v) => Ok(v),
        None => match settings.get_default_venue(chain.chain_id) {
            Some(d) => Ok(d.to_owned()),
            None => Err(AppError::DefaultVenueNotConfigured { chain_display_name: chain.display_name.clone() }),
        },
    }
}

/// What the repertoire command does about ratings.
#[derive(Debug, Clone, PartialEq, Eq)]
pub enum RatingsPlan {
    /// Nothing to rate.
    Skip,
    /// No access token: ratings are left out with a warning.
    MissingToken,
    /// Ask TMDB with this access token.
    Fetch(String),
}

/// The warning shown when no TMDB access token is configured.
pub const MISSING_TOKEN_WARNING: &'static str = "Klucz API do usługi TMDB nie jest skonfigurowany. Niektóre funkcje mogą być niedostępne.";

/// The warning shown when TMDB could not be asked.
pub const TMDB_FAILURE_WARNING: &'static str = "Nie udało się pobrać danych z usługi TMDB. Niektóre funkcje mogą być niedostępne.";

pub fn plan_ratings(movie_count: usize, access_token: Option<&str>) -> (r: RatingsPlan)
    ensures
        movie_count == 0 ==> r == RatingsPlan::Skip,
        movie_count > 0 && access_token is None ==> r == RatingsPlan::MissingToken,
        movie_count > 0 && access_token is Some ==> (r matches RatingsPlan::Fetch(t) && t@ == access_token->0@),
{
    if movie_count == 0 {
        return RatingsPlan::Skip;
    }
    match access_token {
        Some(t) => RatingsPlan::Fetch(t.to_owned()),
        None => RatingsPlan::MissingToken,
    }
}

/// The ratings TMDB gave, or none with the failure warning.
pub fn ratings_or_warning<T>(result: AppResult<Vec<T>>) -> (r: (Vec<T>, Option<&'static str>))
    ensures
        match result {
            Ok(v) => r.0 == v && r.1 is None,
            Err(_) => r.0@.len() == 0 && (r.1 matches Some(w) && w@ == TMDB_FAILURE_WARNING@),
        },
{
    match result {
        Ok(v) => (v, None),
        Err(_) => (Vec::new(), Some(TMDB_FAILURE_WARNING)),
    }
}

/// The error of a configuration with no chain to configure.
pub fn no_chains_error() -> (r: AppError)
    ensures
        r matches AppError::Configuration(m) && m@ == "Brak zarejestrowanych sieci kin do skonfigurowania."@,
{
    AppError::Configuration("Brak zarejestrowanych sieci kin do skonfigurowania.".to_owned())
}

pub open spec fn lowercase_names(v: Seq<CinemaVenue>) -> Seq<Seq<char>> {
    Seq::new(v.len(), |i: int| unicode_lowercase(v[i].venue_name@))
}

/// Venues sorted by their names in lower case (equal names in their order).
pub fn sort_venues_by_lowercase_name(venues: &Vec<CinemaVenue>) -> (r: Vec<CinemaVenue>)
    ensures
        venue_views(r@) == reordered(venue_views(venues@), text_order_of(lowercase_names(venues@))),
{
    let mut keys: Vec<Vec<char>> = Vec::new();
    let mut i: usize = 0;
    while i < venues.len()
        invariant
            i <= venues@.len(),
            key_views(keys@) == lowercase_names(venues@).subrange(0, i as int),
        decreases venues.len() - i,
    {
        let lowered = to_lowercase(venues[i].venue_name.as_str());
        let ghost before = key_views(keys@);
        keys.push(chars_of(lowered.as_str()));
        assert(key_views(keys@) =~= before.push(unicode_lowercase(venues@[i as int].venue_name@)));
        assert(lowercase_names(venues@).subrange(0, i + 1) =~= lowercase_names(venues@).subrange(0, i as int).push(unicode_lowercase(venues@[i as int].venue_name@)));
        i = i + 1;
    }
    assert(lowercase_names(venues@).subrange(0, venues@.len() as int) =~= lowercase_names(venues@));
    sort_venues_by_key(venues, &keys)
}

/// One chain's venue fetch: its identifier, its display name and what the fetch gave.
pub type VenueFetch = (CinemaChainId, String, AppResult<Vec<CinemaVenue>>);

/// The chains whose fetch failed or found no venue, in the order given.
pub open spec fn failed_chain_names(fetches: Seq<VenueFetch>) -> Seq<Seq<char>>
    decreases fetches.len(),
{
    if fetches.len() == 0 {
        Seq::empty()
    } else {
        let pre = failed_chain_names(fetches.drop_last());
        match fetches.last().2 {
            Ok(v) => if v@.len() > 0 { pre } else { pre.push(fetches.last().1@) },
            Err(_) => pre.push(fetches.last().1@),
        }
    }
}

/// The venues of the chains whose fetch found some, each list sorted by lower-case name.
pub open spec fn gathered_venues(fetches: Seq<VenueFetch>) -> Seq<(CinemaChainId, Seq<(Seq<char>, Seq<char>, Seq<char>)>)>
    decreases fetches.len(),
{
    if fetches.len() == 0 {
        Seq::empty()
    } else {
        let pre = gathered_venues(fetches.drop_last());
        match fetches.last().2 {
            Ok(v) => if v@.len() > 0 {
                pre.push((fetches.last().0, reordered(venue_views(v@), text_order_of(lowercase_names(v@)))))
            } else {
                pre
            },
            Err(_) => pre,
        }
    }
}

/// The names of failed chains sorted (as `String`s sort), then joined with commas.
pub open spec fn venue_refresh_failure_message(failed: Seq<Seq<char>>) -> Seq<char> {
    "Nie udało się pobrać list lokali dla wszystkich sieci. Niepowodzenie: "@
        + join_seq(reordered(failed, text_order_of(failed)), ", "@) + "."@
}

pub open spec fn gathered_views(v: Seq<(CinemaChainId, Vec<CinemaVenue>)>) -> Seq<(CinemaChainId, Seq<(Seq<char>, Seq<char>, Seq<char>)>)> {
    Seq::new(v.len(), |i: int| (v[i].0, venue_views(v[i].1@)))
}

/// The venue lists of all chains, when every chain's fetch found venues; else an error
/// naming the chains that failed.
pub fn gather_venue_lists(fetches: Vec<VenueFetch>) -> (r: AppResult<Vec<(CinemaChainId, Vec<CinemaVenue>)>>)
    ensures
        failed_chain_names(fetches@).len() == 0 ==> (r matches Ok(g) && gathered_views(g@) == gathered_venues(fetches@)),
        failed_chain_names(fetches@).len() > 0 ==> (r matches Err(AppError::Configuration(m))
            && m@ == venue_refresh_failure_message(failed_chain_names(fetches@))),
{
    let ghost all = fetches@;
    let n = fetches.len();
    let mut rest = fetches;
    let mut gathered: Vec<(CinemaChainId, Vec<CinemaVenue>)> = Vec::new();
    let mut failed: Vec<Vec<char>> = Vec::new();
    let mut taken: usize = 0;
    while rest.len() > 0
        invariant
            all.len() == n,
            taken <= n,
            rest@ == all.subrange(taken as int, all.len() as int),
            gathered_views(gathered@) == gathered_venues(all.subrange(0, taken as int)),
            views_of(failed@) == failed_chain_names(all.subrange(0, taken as int)),
        decreases rest.len(),
    {
        let (id, name, result) = rest.remove(0);
        assert(all[taken as int] == (id, name, result));
        assert(all.subrange(0, taken + 1).drop_last() =~= all.subrange(0, taken as int));
        assert(all.subrange(0, taken + 1).last() == all[taken as int]);
        match result {
            Ok(venues) => {
                if venues.len() > 0 {
                    let sorted = sort_venues_by_lowercase_name(&venues);
                    let ghost before = gathered_views(gathered@);
                    gathered.push((id, sorted));
                    assert(gathered_views(gathered@) =~= before.push((id, venue_views(sorted@))));
                } else {
                    let ghost before = views_of(failed@);
                    failed.push(chars_of(name.as_str()));
                    assert(views_of(failed@) =~= before.push(name@));
                }
            },
            Err(_) => {
                let ghost before = views_of(failed@);
                failed.push(chars_of(name.as_str()));
                assert(views_of(failed@) =~= before.push(name@));
            },
        }
        taken = taken + 1;
        assert(rest@ =~= all.subrange(taken as int, all.len() as int));
    }
    assert(all.subrange(0, all.len() as int) =~= all);
    if failed.len() == 0 {
        return Ok(gathered);
    }
    let order = crate::ordering::stable_text_order(&failed);
    let ghost ord = crate::ordering::index_ints(order@);
    let ghost fv = views_of(failed@);
    let mut sorted: Vec<Vec<char>> = Vec::new();
    let mut k: usize = 0;
    assert(key_views(failed@) =~= fv);
    while k < order.len()
        invariant
            k <= order@.len(),
            ord == crate::ordering::index_ints(order@),
            ord == text_order_of(fv),
            crate::ordering::is_text_order(ord, fv),
            fv == views_of(failed@),
            views_of(sorted@) == reordered(fv, ord).subrange(0, k as int),
        decreases order.len() - k,
    {
        let idx = order[k];
        assert(ord[k as int] == idx as int);
        let ghost before = views_of(sorted@);
        sorted.push(failed[idx].clone());
        assert(views_of(sorted@) =~= before.push(fv[idx as int]));
        assert(reordered(fv, ord).subrange(0, k + 1) =~= reordered(fv, ord).subrange(0, k as int).push(fv[idx as int]));
        k = k + 1;
    }
    assert(reordered(fv, ord).subrange(0, order@.len() as int) =~= reordered(fv, ord));
    let mut m = chars_of("Nie udało się pobrać list lokali dla wszystkich sieci. Niepowodzenie: ");
    let joined = join(&sorted, chars_of(", ").as_slice());
    crate::text::push_all(&mut m, joined.as_slice());
    push_str(&mut m, ".");
    Err(AppError::Configuration(string_of(m.as_slice())))
}

pub open spec fn display_names(chains: Seq<RegisteredCinemaChain>) -> Seq<Seq<char>> {
    chains.map_values(|c: RegisteredCinemaChain| c.display_name@)
}

/// The line that announces an update of the venues of these chains, named in order.
pub fn venue_update_message(chains: &Vec<RegisteredCinemaChain>) -> (r: String)
    ensures
        r@ == "Aktualizowanie lokali dla sieci: "@ + join_seq(display_names(chains@), ", "@) + "..."@,
{
    let mut names: Vec<Vec<char>> = Vec::new();
    let mut i: usize = 0;
    while i < chains.len()
        invariant
            i <= chains@.len(),
            views_of(names@) == display_names(chains@.subrange(0, i as int)),
        decreases chains.len() - i,
    {
        let ghost before = views_of(names@);
        names.push(chars_of(chains[i].display_name.as_str()));
        assert(views_of(names@) =~= before.push(chains@[i as int].display_name@));
        assert(display_names(chains@.subrange(0, i + 1)) =~= display_names(chains@.subrange(0, i as int)).push(chains@[i as int].display_name@));
        i = i + 1;
    }
    assert(chains@.subrange(0, chains@.len() as int) =~= chains@);
    let mut m = chars_of("Aktualizowanie lokali dla sieci: ");
    let joined = join(&names, chars_of(", ").as_slice());
    crate::text::push_all(&mut m, joined.as_slice());
    push_str(&mut m, "...");
    string_of(m.as_slice())
}

/// The chain choices of the configuration: each registered chain by display name, standing
/// for its identifier, sorted by display name.
pub fn chain_choices(registry: &Registry) -> (r: Vec<SelectionChoice>)
    requires
        registry.wf(),
    ensures
        exists|chains: Seq<RegisteredCinemaChain>| {
            &&& crate::registry::ids_distinct(chains)
            &&& crate::registry::names_of(chains) == registry@
            &&& forall|a: int, b: int| 0 <= a < b < chains.len() ==> !crate::ordering::text_less(chains[b].display_name@, chains[a].display_name@)
            &&& chains.len() == r@.len()
            &&& forall|i: int| 0 <= i < r@.len() ==> (#[trigger] r@[i]).title@ == chains[i].display_name@
                && r@[i].value@ == crate::domain::chain_id_seq(chains[i].chain_id)
        },
{
    let chains = registry.get_registered_chains();
    let mut out: Vec<SelectionChoice> = Vec::new();
    let mut i: usize = 0;
    while i < chains.len()
        invariant
            i <= chains@.len(),
            out@.len() == i,
            forall|k: int| 0 <= k < i ==> (#[trigger] out@[k]).title@ == chains@[k].display_name@
                && out@[k].value@ == crate::domain::chain_id_seq(chains@[k].chain_id),
        decreases chains.len() - i,
    {
        out.push(SelectionChoice {
            title: chains[i].display_name.clone(),
            value: chains[i].chain_id.as_str().to_owned(),
        });
        i = i + 1;
    }
    out
}

/// The choices of a list of texts: each shown as itself.
pub fn text_choices(values: &Vec<String>) -> (r: Vec<SelectionChoice>)
    ensures
        r@.len() == values@.len(),
        forall|i: int| 0 <= i < r@.len() ==> (#[trigger] r@[i]).title@ == values@[i]@ && r@[i].value@ == values@[i]@,
{
    let mut out: Vec<SelectionChoice> = Vec::new();
    let mut i: usize = 0;
    while i < values.len()
        invariant
            i <= values@.len(),
            out@.len() == i,
            forall|k: int| 0 <= k < i ==> (#[trigger] out@[k]).title@ == values@[k]@ && out@[k].value@ == values@[k]@,
        decreases values.len() - i,
    {
        out.push(SelectionChoice { title: values[i].clone(), value: values[i].clone() });
        i = i + 1;
    }
    out
}

/// The default day choices of the configuration.
pub fn day_choices() -> (r: Vec<SelectionChoice>)
    ensures
        r@.len() == 2,
        r@[0].title@ == "dziś"@ && r@[0].value@ == "dziś"@,
        r@[1].title@ == "jutro"@ && r@[1].value@ == "jutro"@,
{
    let mut values: Vec<String> = Vec::new();
    values.push("dziś".to_owned());
    values.push("jutro".to_owned());
    text_choices(&values)
}

/// The venue choices of the configuration for the chosen chain: its venues by name, in
/// their order; an error when the chain's venues were not gathered.
pub fn venue_choices(gathered: &Vec<(CinemaChainId, Vec<CinemaVenue>)>, chain_id: CinemaChainId) -> (r: AppResult<Vec<SelectionChoice>>)
    ensures
        (exists|j: int| 0 <= j < gathered@.len() && gathered@[j].0 == chain_id) ==> (r matches Ok(c) && {
            let j = choose|j: int| 0 <= j < gathered@.len() && gathered@[j].0 == chain_id && forall|k: int| 0 <= k < j ==> gathered@[k].0 != chain_id;
            &&& c@.len() == gathered@[j].1@.len()
            &&& forall|i: int| 0 <= i < c@.len() ==> (#[trigger] c@[i]).title@ == gathered@[j].1@[i].venue_name@
                && c@[i].value@ == gathered@[j].1@[i].venue_name@
        }),
        !(exists|j: int| 0 <= j < gathered@.len() && gathered@[j].0 == chain_id) ==> (r matches Err(AppError::Configuration(m))
            && m@ == "Brak lokali dla wybranej sieci."@),
{
    let mut j: usize = 0;
    while j < gathered.len()
        invariant
            j <= gathered@.len(),
            forall|k: int| 0 <= k < j ==> gathered@[k].0 != chain_id,
        decreases gathered.len() - j,
    {
        if gathered[j].0 == chain_id {
            let venues = &gathered[j].1;
            let mut names: Vec<String> = Vec::new();
            let mut i: usize = 0;
            while i < venues.len()
                invariant
                    i <= venues@.len(),
                    names@.len() == i,
                    forall|k: int| 0 <= k < i ==> (#[trigger] names@[k])@ == venues@[k].venue_name@,
                decreases venues.len() - i,
            {
                names.push(venues[i].venue_name.clone());
                i = i + 1;
            }
            let c = text_choices(&names);
            proof {
                let w = choose|w: int| 0 <= w < gathered@.len() && gathered@[w].0 == chain_id && forall|k: int| 0 <= k < w ==> gathered@[k].0 != chain_id;
                assert(w == j) by {
                    if w < j {
                    } else if w > j {
                        assert(gathered@[j as int].0 == chain_id);
                    }
                }
            }
            return Ok(c);
        }
        j = j + 1;
    }
    Err(AppError::Configuration("Brak lokali dla wybranej sieci.".to_owned()))
}

/// The settings that the configuration's answers give: the chosen chain, day and token, and
/// the chosen venue as the chain's default; everything else as before.
pub fn apply_configuration(base: Settings, chain_id: CinemaChainId, day: String, venue: String, token: String) -> (r: Settings)
    ensures
        r.user_preferences.default_chain == chain_id,
        r.user_preferences.default_day == day,
        opt_view(r.user_preferences.tmdb_access_token) == normalized_optional(Some(token@)),
        r.user_preferences.default_venues.venue_of(chain_id) == Some(venue@),
        forall|other: CinemaChainId| other != chain_id ==> r.user_preferences.default_venues.venue_of(other)
            == base.user_preferences.default_venues.venue_of(other),
{
    let mut settings = base;
    settings.user_preferences.default_chain = chain_id;
    settings.user_preferences.default_day = day;
    settings.user_preferences.tmdb_access_token = normalize_optional_text(Some(token));
    settings.user_preferences.default_venues.set(chain_id, Some(venue));
    settings
}

} // verus!
