//! What Cinema City's quickbook answers add to a repertoire entry's lookup metadata: the
//! film's id, page, running time, original language, release year and Polish premiere, where
//! the page left them out, and the film's name in the second language as an alternate title.
use crate::cinema_city::{canonical_url_spec, film_with_id, find_film, has_string, CinemaCity, CinemaCityFilmEventFilm};
use crate::common::{opt_view, string_views};
use crate::domain::{MovieLookupMetadata, Repertoire};
use crate::multikino::{api_date_spec, normalize_api_date};
use crate::showings::{metadata_view, repertoire_view, repertoire_views, year_prefix_spec, MetadataView, RepertoireView, parse_year_from_date};
use crate::text::{chars_eq, chars_of, copy_range, starts_with, starts_with_seq, string_of, to_ascii_uppercase, trim, trim_seq, upper_seq};
use vstd::prelude::*;

verus! {

/// The film with name `name`: the last one listed with it.
pub open spec fn film_named(films: Seq<CinemaCityFilmEventFilm>, name: Seq<char>) -> Option<CinemaCityFilmEventFilm>
    decreases films.len(),
{
    if films.len() == 0 {
        None
    } else if films.last().name@ == name {
        Some(films.last())
    } else {
        film_named(films.drop_last(), name)
    }
}

/// The film a repertoire entry stands for: by the chain movie id that the page gave, else by
/// the entry's title.
pub open spec fn film_for(films: Seq<CinemaCityFilmEventFilm>, chain_movie_id: Option<Seq<char>>, title: Seq<char>) -> Option<CinemaCityFilmEventFilm> {
    match chain_movie_id {
        Some(id) => film_with_id(films, id),
        None => film_named(films, title),
    }
}

/// The language code of the first `original-lang-…` attribute with a code, in upper case.
pub open spec fn original_language_code_spec(attribute_ids: Seq<Seq<char>>) -> Option<Seq<char>>
    decreases attribute_ids.len(),
{
    if attribute_ids.len() == 0 {
        None
    } else {
        let a = attribute_ids[0];
        if starts_with_seq(a, "original-lang-"@) && a.len() > 14 {
            Some(upper_seq(a.subrange(14, a.len() as int)))
        } else {
            original_language_code_spec(attribute_ids.drop_first())
        }
    }
}

/// The alternate titles with `name` added, when it is a non-blank name other than the title
/// and not yet among them.
pub open spec fn with_alternate(alternates: Seq<Seq<char>>, title: Seq<char>, name: Option<Seq<char>>) -> Seq<Seq<char>> {
    match name {
        Some(n) => if trim_seq(n).len() > 0 && n != title && !alternates.contains(n) {
            alternates.push(n)
        } else {
            alternates
        },
        None => alternates,
    }
}

/// The name of the film with id `id` in the second-language answer.
pub open spec fn secondary_name(secondary: Seq<CinemaCityFilmEventFilm>, id: Seq<char>) -> Option<Seq<char>> {
    match film_with_id(secondary, id) {
        Some(g) => Some(g.name@),
        None => None,
    }
}

/// The metadata of an entry with title `title` completed from film `f`: each field that the
/// page gave stays; an absent one is taken from the film; the film's second-language name
/// joins the alternate titles.
pub open spec fn enriched_metadata(md: MetadataView, title: Seq<char>, f: CinemaCityFilmEventFilm, secondary: Seq<CinemaCityFilmEventFilm>) -> MetadataView {
    (
        if md.0 is Some { md.0 } else { Some(f.id@) },
        if md.1 is Some { md.1 } else {
            match f.link {
                Some(l) => canonical_url_spec(l@),
                None => None,
            }
        },
        with_alternate(md.2, title, secondary_name(secondary, f.id@)),
        if md.3 is Some { md.3 } else { f.length },
        if md.4 is Some { md.4 } else { original_language_code_spec(string_views(f.attribute_ids@)) },
        md.5,
        if md.6 is Some { md.6 } else {
            match f.release_year {
                Some(y) => year_prefix_spec(y@),
                None => None,
            }
        },
        if md.7 is Some { md.7 } else {
            match f.release_date {
                Some(d) => api_date_spec(d@),
                None => None,
            }
        },
    )
}

/// An entry with its metadata completed from its quickbook film, when the answer has one.
pub open spec fn enriched_movie(m: RepertoireView, films: Seq<CinemaCityFilmEventFilm>, secondary: Seq<CinemaCityFilmEventFilm>) -> RepertoireView {
    match film_for(films, m.5.0, m.0) {
        None => m,
        Some(f) => (m.0, m.1, m.2, m.3, m.4, enriched_metadata(m.5, m.0, f, secondary)),
    }
}

/// Completing an entry's metadata keeps everything the page gave: its texts and showings,
/// its genre tags, its alternate titles, and each metadata field that the page filled in.
pub proof fn lemma_enrichment_keeps_page_data(m: RepertoireView, films: Seq<CinemaCityFilmEventFilm>, secondary: Seq<CinemaCityFilmEventFilm>)
    ensures
        ({
            let e = enriched_movie(m, films, secondary);
            &&& e.0 == m.0 && e.1 == m.1 && e.2 == m.2 && e.3 == m.3 && e.4 == m.4
            &&& e.5.5 == m.5.5
            &&& forall|k: int| 0 <= k < m.5.2.len() ==> e.5.2.len() >= m.5.2.len() && e.5.2[k] == m.5.2[k]
            &&& (m.5.0 is Some ==> e.5.0 == m.5.0)
            &&& (m.5.1 is Some ==> e.5.1 == m.5.1)
            &&& (m.5.3 is Some ==> e.5.3 == m.5.3)
            &&& (m.5.4 is Some ==> e.5.4 == m.5.4)
            &&& (m.5.6 is Some ==> e.5.6 == m.5.6)
            &&& (m.5.7 is Some ==> e.5.7 == m.5.7)
        }),
{
}

fn find_film_named<'a>(films: &'a Vec<CinemaCityFilmEventFilm>, name: &str) -> (r: Option<&'a CinemaCityFilmEventFilm>)
    ensures
        match r {
            Some(f) => film_named(films@, name@) == Some(*f),
            None => film_named(films@, name@) is None,
        },
{
    let n = chars_of(name);
    let mut i: usize = films.len();
    assert(films@.subrange(0, films@.len() as int) =~= films@);
    while i > 0
        invariant
            i <= films@.len(),
            n@ == name@,
            film_named(films@, name@) == film_named(films@.subrange(0, i as int), name@),
        decreases i,
    {
        let ghost sub = films@.subrange(0, i as int);
        assert(sub.last() == films@[i - 1]);
        if chars_eq(chars_of(films[i - 1].name.as_str()).as_slice(), n.as_slice()) {
            return Some(&films[i - 1]);
        }
        assert(sub.drop_last() =~= films@.subrange(0, i - 1));
        i = i - 1;
    }
    None
}

fn original_language_code(attribute_ids: &Vec<String>) -> (r: Option<String>)
    ensures
        opt_view(r) == original_language_code_spec(string_views(attribute_ids@)),
{
    let prefix = chars_of("original-lang-");
    proof {
        reveal_strlit("original-lang-");
        assert(string_views(attribute_ids@).subrange(0, attribute_ids@.len() as int) =~= string_views(attribute_ids@));
    }
    let mut i: usize = 0;
    while i < attribute_ids.len()
        invariant
            i <= attribute_ids@.len(),
            prefix@ == "original-lang-"@,
            original_language_code_spec(string_views(attribute_ids@))
                == original_language_code_spec(string_views(attribute_ids@).subrange(i as int, attribute_ids@.len() as int)),
        decreases attribute_ids.len() - i,
    {
        let a = chars_of(attribute_ids[i].as_str());
        let ghost rest = string_views(attribute_ids@).subrange(i as int, attribute_ids@.len() as int);
        assert(rest[0] == a@);
        if starts_with(a.as_slice(), prefix.as_slice()) && a.len() > 14 {
            let code = copy_range(a.as_slice(), 14, a.len());
            let upper = to_ascii_uppercase(code.as_slice());
            return Some(string_of(upper.as_slice()));
        }
        assert(rest.drop_first() =~= string_views(attribute_ids@).subrange(i + 1, attribute_ids@.len() as int));
        i = i + 1;
    }
    None
}

fn enrich_metadata(md: MovieLookupMetadata, title: &String, f: &CinemaCityFilmEventFilm, secondary: &Vec<CinemaCityFilmEventFilm>) -> (r: MovieLookupMetadata)
    ensures
        metadata_view(r) == enriched_metadata(metadata_view(md), title@, *f, secondary@),
{
    let ghost v = metadata_view(md);
    let mut out = md;
    if out.chain_movie_id.is_none() {
        out.chain_movie_id = Some(f.id.clone());
    }
    if out.movie_page_url.is_none() {
        out.movie_page_url = match &f.link {
            Some(l) => CinemaCity::canonicalize_cinema_city_url(l.as_str()),
            None => None,
        };
    }
    match find_film(secondary, f.id.as_str()) {
        Some(g) => {
            let name = chars_of(g.name.as_str());
            if trim(name.as_slice()).len() > 0 && !chars_eq(name.as_slice(), chars_of(title.as_str()).as_slice())
                && !has_string(&out.alternate_titles, g.name.as_str()) {
                let ghost before = string_views(out.alternate_titles@);
                out.alternate_titles.push(g.name.clone());
                assert(string_views(out.alternate_titles@) =~= before.push(g.name@));
            }
        },
        None => {},
    }
    if out.runtime_minutes.is_none() {
        out.runtime_minutes = f.length;
    }
    if out.original_language_code.is_none() {
        out.original_language_code = original_language_code(&f.attribute_ids);
    }
    if out.production_year.is_none() {
        out.production_year = match &f.release_year {
            Some(y) => parse_year_from_date(y.as_str()),
            None => None,
        };
    }
    if out.polish_premiere_date.is_none() {
        out.polish_premiere_date = match &f.release_date {
            Some(d) => normalize_api_date(d.as_str()),
            None => None,
        };
    }
    out
}

fn enrich_movie(m: Repertoire, films: &Vec<CinemaCityFilmEventFilm>, secondary: &Vec<CinemaCityFilmEventFilm>) -> (r: Repertoire)
    ensures
        repertoire_view(r) == enriched_movie(repertoire_view(m), films@, secondary@),
{
    let found = match &m.lookup_metadata.chain_movie_id {
        Some(id) => find_film(films, id.as_str()),
        None => find_film_named(films, m.title.as_str()),
    };
    match found {
        None => m,
        Some(f) => {
            let lookup_metadata = enrich_metadata(m.lookup_metadata, &m.title, f, secondary);
            Repertoire {
                title: m.title,
                genres: m.genres,
                play_length: m.play_length,
                original_language: m.original_language,
                play_details: m.play_details,
                lookup_metadata,
            }
        },
    }
}

impl CinemaCity {
    /// Every entry with its metadata completed from the quickbook films and the films'
    /// second-language answer.
    pub fn enrich_repertoire(
        repertoire: Vec<Repertoire>,
        films: &Vec<CinemaCityFilmEventFilm>,
        secondary: &Vec<CinemaCityFilmEventFilm>,
    ) -> (r: Vec<Repertoire>)
        ensures
            repertoire_views(r@) == Seq::new(repertoire@.len(), |i: int| enriched_movie(repertoire_view(repertoire@[i]), films@, secondary@)),
    {
        let ghost all = repertoire@;
        let ghost target = Seq::new(all.len(), |i: int| enriched_movie(repertoire_view(all[i]), films@, secondary@));
        let mut items = repertoire;
        let mut out: Vec<Repertoire> = Vec::new();
        let n = items.len();
        let mut taken: usize = 0;
        while items.len() > 0
            invariant
                all.len() == n,
                taken <= n,
                items@ == all.subrange(taken as int, all.len() as int),
                target == Seq::new(all.len(), |i: int| enriched_movie(repertoire_view(all[i]), films@, secondary@)),
                repertoire_views(out@) == target.subrange(0, taken as int),
            decreases items.len(),
        {
            let m = items.remove(0);
            assert(m == all[taken as int]);
            let e = enrich_movie(m, films, secondary);
            let ghost before = repertoire_views(out@);
            out.push(e);
            assert(repertoire_views(out@) =~= before.push(target[taken as int]));
            taken = taken + 1;
            assert(items@ =~= all.subrange(taken as int, all.len() as int));
        }
        assert(target.subrange(0, n as int) =~= target);
        out
    }
}

} // verus!
