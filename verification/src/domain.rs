//! The data the library works on: cinema chains, venues and repertoires.
use crate::error::{AppError, AppResult};
use crate::ordering::{index_ints, is_text_order, key_views, stable_text_order, text_order_of};
use crate::text::{
    chars_eq, chars_of, is_ws, lemma_trim_end_skip, lemma_trim_start_skip, lower_char, lower_seq, string_of,
    to_ascii_lowercase, trim, trim_end_seq, trim_seq, trim_start_seq,
};
use vstd::prelude::*;

verus! {

/// The cinema chains the tool knows.
#[derive(Debug, Clone, Copy, PartialEq, Eq, Hash, Structural)]
pub enum CinemaChainId {
    CinemaCity,
    Helios,
    Multikino,
}

/// The identifier of a chain, as written on the command line and in the venue store.
pub open spec fn chain_id_seq(id: CinemaChainId) -> Seq<char> {
    match id {
        CinemaChainId::CinemaCity => "cinema-city"@,
        CinemaChainId::Helios => "helios"@,
        CinemaChainId::Multikino => "multikino"@,
    }
}

/// The configuration key of a chain.
pub open spec fn section_name_seq(id: CinemaChainId) -> Seq<char> {
    match id {
        CinemaChainId::CinemaCity => "cinema_city"@,
        CinemaChainId::Helios => "helios"@,
        CinemaChainId::Multikino => "multikino"@,
    }
}

/// The list of accepted chain identifiers, as shown in error messages.
pub open spec fn supported_chains_text() -> Seq<char> {
    "cinema-city, helios, multikino"@
}

/// The chain a user-typed value names: surrounding whitespace and ASCII case are ignored.
pub open spec fn chain_for_input(value: Seq<char>) -> Option<CinemaChainId> {
    let normalized = lower_seq(trim_seq(value));
    if normalized == "cinema-city"@ {
        Some(CinemaChainId::CinemaCity)
    } else if normalized == "helios"@ {
        Some(CinemaChainId::Helios)
    } else if normalized == "multikino"@ {
        Some(CinemaChainId::Multikino)
    } else {
        None
    }
}

impl CinemaChainId {
    pub fn from_value(value: &str) -> (r: AppResult<Self>)
        ensures
            match r {
                Ok(id) => chain_for_input(value@) == Some(id),
                Err(e) => chain_for_input(value@) is None && (e matches AppError::UnsupportedCinemaChain {
                    invalid_chain,
                    supported_chains,
                } && invalid_chain@ == value@ && supported_chains@ == supported_chains_text()),
            },
    {
        let chars = chars_of(value);
        let trimmed = trim(chars.as_slice());
        let normalized = to_ascii_lowercase(trimmed.as_slice());
        let cinema_city = chars_of("cinema-city");
        let helios = chars_of("helios");
        let multikino = chars_of("multikino");
        if chars_eq(normalized.as_slice(), cinema_city.as_slice()) {
            Ok(CinemaChainId::CinemaCity)
        } else if chars_eq(normalized.as_slice(), helios.as_slice()) {
            Ok(CinemaChainId::Helios)
        } else if chars_eq(normalized.as_slice(), multikino.as_slice()) {
            Ok(CinemaChainId::Multikino)
        } else {
            Err(AppError::UnsupportedCinemaChain {
                invalid_chain: string_of(chars.as_slice()),
                supported_chains: string_of(chars_of("cinema-city, helios, multikino").as_slice()),
            })
        }
    }

    pub fn as_str(self) -> (r: &'static str)
        ensures
            r@ == chain_id_seq(self),
    {
        match self {
            CinemaChainId::CinemaCity => "cinema-city",
            CinemaChainId::Helios => "helios",
            CinemaChainId::Multikino => "multikino",
        }
    }

    pub fn section_name(self) -> (r: &'static str)
        ensures
            r@ == section_name_seq(self),
    {
        match self {
            CinemaChainId::CinemaCity => "cinema_city",
            CinemaChainId::Helios => "helios",
            CinemaChainId::Multikino => "multikino",
        }
    }

    /// Every chain identifier, in declaration order.
    pub fn supported_values() -> (r: Vec<&'static str>)
        ensures
            r@.len() == 3,
            r@[0]@ == chain_id_seq(CinemaChainId::CinemaCity),
            r@[1]@ == chain_id_seq(CinemaChainId::Helios),
            r@[2]@ == chain_id_seq(CinemaChainId::Multikino),
    {
        let mut r: Vec<&'static str> = Vec::new();
        r.push(CinemaChainId::CinemaCity.as_str());
        r.push(CinemaChainId::Helios.as_str());
        r.push(CinemaChainId::Multikino.as_str());
        r
    }
}

/// Reading back the identifier of any chain gives that chain.
pub proof fn lemma_chain_id_roundtrip(id: CinemaChainId)
    ensures
        chain_for_input(chain_id_seq(id)) == Some(id),
{
    reveal_strlit("cinema-city");
    reveal_strlit("helios");
    reveal_strlit("multikino");
    let s = chain_id_seq(id);
    assert(crate::text::trim_start_seq(s) == s);
    assert(crate::text::trim_end_seq(s) == s);
    assert(lower_seq(s) =~= s);
}

/// A chain's identifier written in any ASCII case and with whitespace around it still
/// reads back as that chain.
pub proof fn lemma_chain_id_roundtrip_padded(id: CinemaChainId, written: Seq<char>, before: Seq<char>, after: Seq<char>)
    requires
        lower_seq(written) == chain_id_seq(id),
        forall|i: int| 0 <= i < before.len() ==> is_ws(#[trigger] before[i]),
        forall|i: int| 0 <= i < after.len() ==> is_ws(#[trigger] after[i]),
    ensures
        chain_for_input(before + written + after) == Some(id),
{
    reveal_strlit("cinema-city");
    reveal_strlit("helios");
    reveal_strlit("multikino");
    let w = written;
    let n = w.len() as int;
    let idv = chain_id_seq(id);
    assert(idv.len() > 0);
    assert(lower_seq(w).len() == n);
    assert(lower_seq(w)[0] == lower_char(w[0]));
    assert(lower_seq(w)[n - 1] == lower_char(w[n - 1]));
    assert(!is_ws(idv[0]) && !is_ws(idv[n - 1]));
    assert(!is_ws(w[0]));
    assert(!is_ws(w[n - 1]));
    let s = before + w + after;
    assert forall|j: int| 0 <= j < before.len() implies is_ws(#[trigger] s[j]) by {
        assert(s[j] == before[j]);
    }
    lemma_trim_start_skip(s, before.len() as int);
    let rest = w + after;
    assert(s.subrange(before.len() as int, s.len() as int) =~= rest);
    assert(rest[0] == w[0]);
    assert(trim_start_seq(rest) == rest);
    assert forall|j: int| n <= j < rest.len() implies is_ws(#[trigger] rest[j]) by {
        assert(rest[j] == after[j - n]);
    }
    lemma_trim_end_skip(rest, n);
    assert(rest.subrange(0, n) =~= w);
    assert(trim_end_seq(w) == w);
    assert(trim_seq(s) == w);
}

/// Different chains have different identifiers.
pub proof fn lemma_chain_ids_distinct(a: CinemaChainId, b: CinemaChainId)
    ensures
        a != b ==> chain_id_seq(a) != chain_id_seq(b),
{
    lemma_chain_id_roundtrip(a);
    lemma_chain_id_roundtrip(b);
}

/// A cinema of a chain.
#[derive(Debug, Clone, PartialEq, Eq)]
pub struct CinemaVenue {
    pub chain_id: String,
    pub venue_id: String,
    pub venue_name: String,
}

/// A venue as text: chain, id and name.
pub open spec fn venue_view(v: CinemaVenue) -> (Seq<char>, Seq<char>, Seq<char>) {
    (v.chain_id@, v.venue_id@, v.venue_name@)
}

pub open spec fn venue_views(v: Seq<CinemaVenue>) -> Seq<(Seq<char>, Seq<char>, Seq<char>)> {
    Seq::new(v.len(), |i: int| venue_view(v[i]))
}

/// A copy of a venue.
pub fn copy_venue(v: &CinemaVenue) -> (r: CinemaVenue)
    ensures
        venue_view(r) == venue_view(*v),
{
    CinemaVenue { chain_id: v.chain_id.clone(), venue_id: v.venue_id.clone(), venue_name: v.venue_name.clone() }
}

/// The items of `items` at the positions `order` lists, in that order.
pub open spec fn reordered<A>(items: Seq<A>, order: Seq<int>) -> Seq<A> {
    Seq::new(order.len(), |k: int| items[order[k]])
}

/// The venues sorted by the given keys (one per venue), equal keys in their original order.
pub fn sort_venues_by_key(venues: &Vec<CinemaVenue>, keys: &Vec<Vec<char>>) -> (r: Vec<CinemaVenue>)
    requires
        keys@.len() == venues@.len(),
    ensures
        venue_views(r@) == reordered(venue_views(venues@), text_order_of(key_views(keys@))),
{
    let order = stable_text_order(keys);
    let ghost ord = index_ints(order@);
    let mut out: Vec<CinemaVenue> = Vec::new();
    let mut k: usize = 0;
    while k < order.len()
        invariant
            k <= order@.len(),
            ord == index_ints(order@),
            ord == text_order_of(key_views(keys@)),
            is_text_order(ord, key_views(keys@)),
            keys@.len() == venues@.len(),
            venue_views(out@) == reordered(venue_views(venues@), ord).subrange(0, k as int),
        decreases order.len() - k,
    {
        assert(0 <= ord[k as int] < keys@.len());
        let v = copy_venue(&venues[order[k]]);
        let ghost before = venue_views(out@);
        assert(ord[k as int] == order@[k as int] as int);
        assert(venue_view(v) == venue_views(venues@)[ord[k as int]]);
        out.push(v);
        assert(venue_views(out@) =~= before.push(venue_view(v)));
        assert(venue_views(out@) =~= reordered(venue_views(venues@), ord).subrange(0, k + 1));
        k = k + 1;
    }
    assert(reordered(venue_views(venues@), ord).subrange(0, order@.len() as int) =~= reordered(venue_views(venues@), ord));
    out
}

/// One showing time, with the booking page when the chain offers one.
#[derive(Debug, Clone, PartialEq, Eq)]
pub struct MoviePlayTime {
    pub value: String,
    pub url: Option<String>,
}

/// Showings of one movie in one format and language.
#[derive(Debug, Clone, PartialEq, Eq)]
pub struct MoviePlayDetails {
    pub format: String,
    pub play_language: String,
    pub play_times: Vec<MoviePlayTime>,
}

/// What a chain tells about a movie that helps to find it in TMDB.
#[derive(Debug, Clone, PartialEq, Eq)]
pub struct MovieLookupMetadata {
    pub chain_movie_id: Option<String>,
    pub movie_page_url: Option<String>,
    pub alternate_titles: Vec<String>,
    pub runtime_minutes: Option<u16>,
    pub original_language_code: Option<String>,
    pub genre_tags: Vec<String>,
    pub production_year: Option<i32>,
    pub polish_premiere_date: Option<String>,
}

impl MovieLookupMetadata {
    /// Metadata that says nothing.
    pub fn empty() -> (r: Self)
        ensures
            r.chain_movie_id is None,
            r.movie_page_url is None,
            r.alternate_titles@.len() == 0,
            r.runtime_minutes is None,
            r.original_language_code is None,
            r.genre_tags@.len() == 0,
            r.production_year is None,
            r.polish_premiere_date is None,
    {
        MovieLookupMetadata {
            chain_movie_id: None,
            movie_page_url: None,
            alternate_titles: Vec::new(),
            runtime_minutes: None,
            original_language_code: None,
            genre_tags: Vec::new(),
            production_year: None,
            polish_premiere_date: None,
        }
    }
}

impl Default for MovieLookupMetadata {
    fn default() -> (r: Self)
        ensures
            r.chain_movie_id is None,
            r.movie_page_url is None,
            r.alternate_titles@.len() == 0,
            r.runtime_minutes is None,
            r.original_language_code is None,
            r.genre_tags@.len() == 0,
            r.production_year is None,
            r.polish_premiere_date is None,
    {
        MovieLookupMetadata::empty()
    }
}

/// Details read from a chain's own movie page.
#[derive(Debug, Clone, PartialEq, Eq)]
pub struct MoviePageFallbackDetails {
    pub original_title: Option<String>,
    pub country: Option<String>,
    pub cast: Vec<String>,
    pub directors: Vec<String>,
    pub synopsis: Option<String>,
}

/// A movie on a venue's repertoire.
#[derive(Debug, Clone, PartialEq, Eq)]
pub struct Repertoire {
    pub title: String,
    pub genres: String,
    pub play_length: String,
    pub original_language: String,
    pub play_details: Vec<MoviePlayDetails>,
    pub lookup_metadata: MovieLookupMetadata,
}

/// The key under which a movie's TMDB details are looked up: the chain's id of the movie
/// when it has one, its title otherwise.
pub open spec fn lookup_key_spec(r: Repertoire) -> Seq<char> {
    match r.lookup_metadata.chain_movie_id {
        Some(id) => id@,
        None => r.title@,
    }
}

impl Repertoire {
    pub fn tmdb_lookup_key(&self) -> (r: &str)
        ensures
            r@ == lookup_key_spec(*self),
    {
        match &self.lookup_metadata.chain_movie_id {
            Some(id) => id.as_str(),
            None => self.title.as_str(),
        }
    }
}

/// A movie to look up in TMDB.
#[derive(Debug, Clone, PartialEq, Eq)]
pub struct TmdbLookupMovie {
    pub lookup_key: String,
    pub title: String,
    pub lookup_metadata: MovieLookupMetadata,
}

impl TmdbLookupMovie {
    /// The lookup request for a repertoire entry.
    pub fn from_repertoire(value: Repertoire) -> (r: Self)
        ensures
            r.lookup_key@ == lookup_key_spec(value),
            r.title == value.title,
            r.lookup_metadata == value.lookup_metadata,
    {
        let key = string_of(chars_of(value.tmdb_lookup_key()).as_slice());
        TmdbLookupMovie { lookup_key: key, title: value.title, lookup_metadata: value.lookup_metadata }
    }
}

/// The heading data of a repertoire table.
#[derive(Debug, Clone, PartialEq, Eq)]
pub struct RepertoireCliTableMetadata {
    pub chain_display_name: String,
    pub repertoire_date: String,
    pub cinema_venue_name: String,
}

/// A movie's rating and summary as shown in the table.
#[derive(Debug, Clone, PartialEq, Eq)]
pub struct TmdbMovieDetails {
    pub rating: String,
    pub summary: String,
}

} // verus!
