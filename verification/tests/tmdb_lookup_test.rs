use quick_repertoire::domain::{MovieLookupMetadata, MoviePageFallbackDetails, TmdbLookupMovie, TmdbMovieDetails};
use quick_repertoire::error::AppError;
use quick_repertoire::lookup::{LookupAction, LookupEvent, MovieLookup};
use quick_repertoire::tmdb::{
    combine_lookup_outcomes, invalid_search_json_error, make_search_params, LookupOutcome, TmdbCastMember, TmdbCredits, TmdbCrewMember,
    TmdbGenre, TmdbMovieDetailsResponse, TmdbProductionCountry, TmdbSearchRequest, TmdbSearchResult,
};

fn lookup_movie(title: &str) -> TmdbLookupMovie {
    lookup_movie_with_metadata(title, MovieLookupMetadata::default())
}

fn lookup_movie_with_metadata(title: &str, metadata: MovieLookupMetadata) -> TmdbLookupMovie {
    let lookup_key = metadata.chain_movie_id.clone().unwrap_or_else(|| title.to_string());
    TmdbLookupMovie { lookup_key, title: title.to_string(), lookup_metadata: metadata }
}

#[allow(clippy::too_many_arguments)]
fn tmdb_search_result(
    id: u64,
    title: &str,
    original_title: &str,
    release_date: &str,
    original_language: &str,
    vote_average: f64,
    vote_count: u32,
    overview: &str,
) -> TmdbSearchResult {
    TmdbSearchResult {
        id,
        title: Some(title.to_string()),
        original_title: Some(original_title.to_string()),
        original_language: Some(original_language.to_string()),
        release_date: Some(release_date.to_string()),
        vote_average_label: Some(format!("{vote_average:.1}")),
        vote_count: Some(vote_count),
        overview: Some(overview.to_string()),
    }
}

#[allow(clippy::too_many_arguments)]
fn tmdb_movie_details(
    title: &str,
    original_title: &str,
    release_date: &str,
    original_language: &str,
    runtime: u16,
    vote_average: f64,
    vote_count: u32,
    overview: &str,
    genres: &[&str],
    countries: &[(&str, &str)],
    directors: &[&str],
    cast: &[&str],
) -> TmdbMovieDetailsResponse {
    TmdbMovieDetailsResponse {
        title: Some(title.to_string()),
        original_title: Some(original_title.to_string()),
        original_language: Some(original_language.to_string()),
        release_date: Some(release_date.to_string()),
        runtime: Some(runtime),
        vote_average_label: Some(format!("{vote_average:.1}")),
        vote_count: Some(vote_count),
        overview: Some(overview.to_string()),
        genres: genres.iter().map(|name| TmdbGenre { name: name.to_string() }).collect(),
        production_countries: countries
            .iter()
            .map(|(code, name)| TmdbProductionCountry { iso_3166_1: Some(code.to_string()), name: Some(name.to_string()) })
            .collect(),
        credits: Some(TmdbCredits {
            cast: cast.iter().map(|name| TmdbCastMember { name: name.to_string() }).collect(),
            crew: directors
                .iter()
                .map(|name| TmdbCrewMember { job: Some("Director".to_string()), name: name.to_string() })
                .collect(),
        }),
    }
}

/// Canned TMDB answers: searches by query (and year, when one is given), details by id and
/// movie pages by address. An unanswered request fails as an unknown address would.
#[derive(Default)]
struct FakeTmdb {
    searches: Vec<(String, Option<i32>, Vec<TmdbSearchResult>)>,
    details: Vec<(u64, TmdbMovieDetailsResponse)>,
    pages: Vec<(String, MoviePageFallbackDetails)>,
    requests: Vec<String>,
}

impl FakeTmdb {
    fn search(mut self, query: &str, results: Vec<TmdbSearchResult>) -> Self {
        self.searches.push((query.to_string(), None, results));
        self
    }

    fn search_in_year(mut self, query: &str, year: i32, results: Vec<TmdbSearchResult>) -> Self {
        self.searches.push((query.to_string(), Some(year), results));
        self
    }

    fn movie(mut self, id: u64, details: TmdbMovieDetailsResponse) -> Self {
        self.details.push((id, details));
        self
    }

    fn page(mut self, url: &str, details: MoviePageFallbackDetails) -> Self {
        self.pages.push((url.to_string(), details));
        self
    }

    /// The ratings that a lookup of `movie` against these answers gives.
    fn ratings(&mut self, movie: TmdbLookupMovie) -> Result<Vec<(String, TmdbMovieDetails)>, AppError> {
        let lookup_key = movie.lookup_key.clone();
        let mut lookup = MovieLookup::new(movie);
        let mut action = lookup.start();
        let result = loop {
            action = match action {
                LookupAction::Search { query, year } => {
                    self.requests.push(format!("search {query} {year:?}"));
                    let answer = self
                        .searches
                        .iter()
                        .find(|(q, y, _)| *q == query && (y.is_none() || *y == year))
                        .map(|(_, _, results)| results.clone());
                    match answer {
                        Some(results) => lookup.on_event(LookupEvent::SearchSucceeded(results)),
                        None => lookup.on_event(LookupEvent::SearchFailed(AppError::Http(
                            "TMDB request failed with status 404 Not Found.".to_string(),
                        ))),
                    }
                }
                LookupAction::LoadMoviePage { url } => {
                    self.requests.push(format!("page {url}"));
                    let page = self.pages.iter().find(|(u, _)| *u == url).map(|(_, d)| d.clone());
                    lookup.on_event(LookupEvent::MoviePageLoaded(page))
                }
                LookupAction::FetchDetails { movie_id } => {
                    self.requests.push(format!("details {movie_id}"));
                    let details = self.details.iter().find(|(id, _)| *id == movie_id).map(|(_, d)| d.clone());
                    lookup.on_event(LookupEvent::DetailsLoaded(details))
                }
                LookupAction::Finish(details) => break Ok(details),
                LookupAction::Fail(error) => break Err(error),
            };
        };
        combine_lookup_outcomes(vec![LookupOutcome { lookup_key, result }])
    }
}

fn rating(key: &str, rating: &str, summary: &str) -> Vec<(String, TmdbMovieDetails)> {
    vec![(key.to_string(), TmdbMovieDetails { rating: rating.to_string(), summary: summary.to_string() })]
}

#[test]
fn get_movie_ratings_and_summaries_ranks_ambiguous_localized_titles_with_metadata() {
    let results = vec![
        tmdb_search_result(1, "Tajny agent", "The Secret Agent", "2025-04-04", "en", 6.2, 120, "Old spy thriller."),
        tmdb_search_result(2, "Tajny agent", "The Amateur", "2026-04-10", "en", 7.8, 80, "A modern spy thriller."),
    ];
    let mut tmdb = FakeTmdb::default()
        .search_in_year("Tajny agent", 2026, results.clone())
        .search("Tajny agent", results)
        .movie(
            1,
            tmdb_movie_details(
                "Tajny agent",
                "The Secret Agent",
                "2025-04-04",
                "en",
                98,
                6.2,
                120,
                "Old spy thriller.",
                &["Comedy"],
                &[("GB", "United Kingdom")],
                &["Someone Else"],
                &["Actor One"],
            ),
        )
        .movie(
            2,
            tmdb_movie_details(
                "Tajny agent",
                "The Amateur",
                "2026-04-10",
                "en",
                123,
                7.8,
                80,
                "A modern spy thriller.",
                &["Thriller"],
                &[("US", "United States")],
                &["James Hawes"],
                &["Rami Malek"],
            ),
        );

    let details = tmdb
        .ratings(lookup_movie_with_metadata(
            "Tajny agent",
            MovieLookupMetadata {
                runtime_minutes: Some(123),
                original_language_code: Some("EN".to_string()),
                genre_tags: vec!["thriller".to_string()],
                production_year: Some(2026),
                ..MovieLookupMetadata::default()
            },
        ))
        .unwrap();

    assert_eq!(details, rating("Tajny agent", "7.8/10\n(głosy: 80)", "A modern spy thriller."));
}

#[test]
fn get_movie_ratings_and_summaries_strips_screening_suffixes_and_includes_adult_results() {
    let mut tmdb = FakeTmdb::default()
        .search(
            "Projekt Hail Mary",
            vec![tmdb_search_result(
                3,
                "Projekt Hail Mary",
                "Project Hail Mary",
                "2026-03-20",
                "en",
                8.1,
                9000,
                "A space survival story.",
            )],
        )
        .movie(
            3,
            tmdb_movie_details(
                "Projekt Hail Mary",
                "Project Hail Mary",
                "2026-03-20",
                "en",
                146,
                8.1,
                9000,
                "A space survival story.",
                &["Science Fiction"],
                &[("US", "United States")],
                &["Phil Lord"],
                &["Ryan Gosling"],
            ),
        );

    let details = tmdb
        .ratings(lookup_movie_with_metadata(
            "Projekt Hail Mary ukraiński dubbing",
            MovieLookupMetadata {
                runtime_minutes: Some(146),
                original_language_code: Some("EN".to_string()),
                production_year: Some(2026),
                ..MovieLookupMetadata::default()
            },
        ))
        .unwrap();

    assert_eq!(
        details,
        rating("Projekt Hail Mary ukraiński dubbing", "8.1/10\n(głosy: 9000)", "A space survival story.")
    );
    assert_eq!(tmdb.requests, vec!["search Projekt Hail Mary None".to_string(), "details 3".to_string()]);
    let params = make_search_params(&TmdbSearchRequest { query: "Projekt Hail Mary".to_string(), year: None });
    for (name, value) in [("query", "Projekt Hail Mary"), ("include_adult", "true"), ("language", "pl-PL"), ("region", "PL")] {
        assert!(params.contains(&(name.to_string(), value.to_string())));
    }
}

#[test]
fn get_movie_ratings_and_summaries_uses_movie_page_fallback_metadata_to_break_ties() {
    let page_url = "http://127.0.0.1:8080/cinema-city/amator";
    let mut tmdb = FakeTmdb::default()
        .search(
            "Amator",
            vec![
                tmdb_search_result(11, "Amator", "Another Amateur", "2026-04-10", "en", 6.4, 300, "Wrong movie."),
                tmdb_search_result(12, "Amator", "The Amateur", "2026-04-10", "en", 7.7, 1400, "Correct movie."),
            ],
        )
        .search(
            "The Amateur",
            vec![tmdb_search_result(12, "Amator", "The Amateur", "2026-04-10", "en", 7.7, 1400, "Correct movie.")],
        )
        .movie(
            11,
            tmdb_movie_details(
                "Amator",
                "Another Amateur",
                "2026-04-10",
                "en",
                109,
                6.4,
                300,
                "Wrong movie.",
                &["Drama"],
                &[("GB", "United Kingdom")],
                &["Wrong Director"],
                &["Wrong Actor"],
            ),
        )
        .movie(
            12,
            tmdb_movie_details(
                "Amator",
                "The Amateur",
                "2026-04-10",
                "en",
                123,
                7.7,
                1400,
                "Correct movie.",
                &["Thriller"],
                &[("US", "United States")],
                &["James Hawes"],
                &["Rami Malek", "Rachel Brosnahan"],
            ),
        )
        .page(
            page_url,
            MoviePageFallbackDetails {
                original_title: Some("The Amateur".to_string()),
                country: Some("USA".to_string()),
                cast: vec!["Rami Malek".to_string(), "Rachel Brosnahan".to_string()],
                directors: vec!["James Hawes".to_string()],
                synopsis: Some("Cinema City synopsis.".to_string()),
            },
        );

    let details = tmdb
        .ratings(lookup_movie_with_metadata(
            "Amator",
            MovieLookupMetadata {
                movie_page_url: Some(page_url.to_string()),
                runtime_minutes: Some(123),
                genre_tags: vec!["thriller".to_string()],
                original_language_code: Some("EN".to_string()),
                ..MovieLookupMetadata::default()
            },
        ))
        .unwrap();

    assert_eq!(details, rating("Amator", "7.7/10\n(głosy: 1400)", "Correct movie."));
}

#[test]
fn get_movie_ratings_and_summaries_accepts_single_exact_title_match_with_partial_metadata() {
    let mut tmdb = FakeTmdb::default()
        .search(
            "Krzyk 7",
            vec![tmdb_search_result(61, "Krzyk 7", "Scream 7", "2026-03-01", "en", 6.5, 12, "Ghostface returns.")],
        )
        .movie(
            61,
            tmdb_movie_details(
                "Krzyk 7",
                "Scream 7",
                "2026-03-01",
                "en",
                115,
                6.5,
                12,
                "Ghostface returns.",
                &["Horror"],
                &[("US", "United States")],
                &["Kevin Williamson"],
                &["Neve Campbell"],
            ),
        );

    let details = tmdb
        .ratings(lookup_movie_with_metadata(
            "Krzyk 7",
            MovieLookupMetadata { runtime_minutes: Some(115), ..MovieLookupMetadata::default() },
        ))
        .unwrap();

    assert_eq!(details, rating("Krzyk 7", "6.5/10\n(głosy: 12)", "Ghostface returns."));
}

#[test]
fn get_movie_ratings_and_summaries_uses_alternate_titles_for_translated_searches() {
    let mut tmdb = FakeTmdb::default()
        .search("Ostatnia wieczerza", Vec::new())
        .search(
            "The Last Supper",
            vec![tmdb_search_result(62, "The Last Supper", "The Last Supper", "2026-03-20", "en", 6.8, 84, "Correct movie.")],
        )
        .movie(
            62,
            tmdb_movie_details(
                "The Last Supper",
                "The Last Supper",
                "2026-03-20",
                "en",
                94,
                6.8,
                84,
                "Correct movie.",
                &["Drama"],
                &[("US", "United States")],
                &["Mauro Borrelli"],
                &["Jamie Ward"],
            ),
        );

    let details = tmdb
        .ratings(lookup_movie_with_metadata(
            "Ostatnia wieczerza",
            MovieLookupMetadata {
                alternate_titles: vec!["The Last Supper".to_string()],
                runtime_minutes: Some(94),
                original_language_code: Some("EN".to_string()),
                production_year: Some(2025),
                ..MovieLookupMetadata::default()
            },
        ))
        .unwrap();

    assert_eq!(details, rating("Ostatnia wieczerza", "6.8/10\n(głosy: 84)", "Correct movie."));
}

#[test]
fn get_movie_ratings_and_summaries_strips_screening_suffixes_from_alternate_titles() {
    let mut tmdb = FakeTmdb::default()
        .search("Projekt Hail Mary", Vec::new())
        .search(
            "Project Hail Mary",
            vec![tmdb_search_result(
                63,
                "Project Hail Mary",
                "Project Hail Mary",
                "2026-03-20",
                "en",
                7.9,
                512,
                "Ryland Grace wakes up alone in space.",
            )],
        )
        .movie(
            63,
            tmdb_movie_details(
                "Project Hail Mary",
                "Project Hail Mary",
                "2026-03-20",
                "en",
                156,
                7.9,
                512,
                "Ryland Grace wakes up alone in space.",
                &["Science Fiction", "Drama", "Thriller"],
                &[("US", "United States")],
                &["Phil Lord"],
                &["Ryan Gosling"],
            ),
        );

    let details = tmdb
        .ratings(lookup_movie_with_metadata(
            "Projekt Hail Mary ukraiński dubbing",
            MovieLookupMetadata {
                alternate_titles: vec!["Project Hail Mary Ukrainian dubbing".to_string()],
                runtime_minutes: Some(156),
                production_year: Some(2026),
                ..MovieLookupMetadata::default()
            },
        ))
        .unwrap();

    assert_eq!(
        details,
        rating("Projekt Hail Mary ukraiński dubbing", "7.9/10\n(głosy: 512)", "Ryland Grace wakes up alone in space.")
    );
    assert_eq!(tmdb.requests[0], "search Projekt Hail Mary None");
    assert_eq!(tmdb.requests[1], "search Project Hail Mary None");
}

#[test]
fn get_movie_ratings_and_summaries_accepts_exact_title_match_when_details_break_tie() {
    let mut tmdb = FakeTmdb::default()
        .search(
            "David",
            vec![
                tmdb_search_result(71, "David", "David", "1997-03-23", "en", 7.2, 500, "Wrong David."),
                tmdb_search_result(72, "David", "David", "2026-03-27", "en", 6.4, 3, "Correct David."),
            ],
        )
        .movie(
            71,
            tmdb_movie_details(
                "David",
                "David",
                "1997-03-23",
                "en",
                96,
                7.2,
                500,
                "Wrong David.",
                &["Drama"],
                &[("US", "United States")],
                &["Wrong Director"],
                &["Wrong Actor"],
            ),
        )
        .movie(
            72,
            tmdb_movie_details(
                "David",
                "David",
                "2026-03-27",
                "en",
                109,
                6.4,
                3,
                "Correct David.",
                &["Animation", "Adventure", "Family"],
                &[("US", "United States")],
                &["Phil Cunningham"],
                &["Manny Perez"],
            ),
        );

    let details = tmdb
        .ratings(lookup_movie_with_metadata(
            "David",
            MovieLookupMetadata {
                runtime_minutes: Some(109),
                genre_tags: vec!["animowany".to_string(), "przygodowy".to_string(), "familijny".to_string()],
                ..MovieLookupMetadata::default()
            },
        ))
        .unwrap();

    assert_eq!(details, rating("David", "6.4/10\n(głosy: 3)", "Correct David."));
}

#[test]
fn get_movie_ratings_and_summaries_leaves_low_confidence_matches_blank() {
    let mut tmdb = FakeTmdb::default()
        .search(
            "Amator",
            vec![tmdb_search_result(21, "Amatorzy", "The Amateurs", "2024-04-10", "en", 6.0, 100, "Not the same movie.")],
        )
        .movie(
            21,
            tmdb_movie_details(
                "Amatorzy",
                "The Amateurs",
                "2024-04-10",
                "en",
                101,
                6.0,
                100,
                "Not the same movie.",
                &["Comedy"],
                &[("GB", "United Kingdom")],
                &["Wrong Director"],
                &["Wrong Actor"],
            ),
        );

    let details = tmdb.ratings(lookup_movie("Amator")).unwrap();

    assert_eq!(details, rating("Amator", "", ""));
}

#[test]
fn a_failed_search_fails_the_lookup_with_its_error() {
    let mut tmdb = FakeTmdb::default();
    assert_eq!(
        tmdb.ratings(lookup_movie("Garfield")),
        Err(AppError::Http("TMDB request failed with status 404 Not Found.".to_string()))
    );
}

#[test]
fn get_movie_ratings_and_summaries_reports_invalid_tmdb_json() {
    let mut lookup = MovieLookup::new(lookup_movie("Garfield"));
    let first = lookup.start();
    let LookupAction::Search { query, .. } = first else { panic!("a lookup starts with a search") };
    assert_eq!(query, "Garfield");
    let error = invalid_search_json_error(&query, "EOF while parsing a list at line 1 column 12");
    let LookupAction::Fail(error) = lookup.on_event(LookupEvent::SearchFailed(error)) else {
        panic!("a failed search ends the lookup")
    };
    let outcome = combine_lookup_outcomes(vec![LookupOutcome { lookup_key: "Garfield".to_string(), result: Err(error) }]);
    let Err(AppError::Http(message)) = outcome else { panic!("invalid TMDB JSON should surface as an error") };
    assert!(message.contains("invalid JSON") && message.contains("Garfield"));
}

#[test]
fn movie_lookup_searches_with_the_year_then_reads_the_movie_page_then_searches_its_titles() {
    let url = "https://www.cinema-city.pl/filmy/diuna/1234";
    let page = MoviePageFallbackDetails {
        original_title: Some("Dune".to_string()),
        country: None,
        cast: Vec::new(),
        directors: Vec::new(),
        synopsis: None,
    };
    let mut tmdb = FakeTmdb::default()
        .search_in_year("Diuna", 2021, Vec::new())
        .search("Diuna", Vec::new())
        .search_in_year("Dune", 2021, Vec::new())
        .search("Dune", Vec::new())
        .page(url, page);
    let details = tmdb
        .ratings(lookup_movie_with_metadata(
            "Diuna",
            MovieLookupMetadata {
                movie_page_url: Some(url.to_string()),
                production_year: Some(2021),
                ..MovieLookupMetadata::default()
            },
        ))
        .unwrap();
    assert_eq!(details, rating("Diuna", "", ""));
    assert_eq!(
        tmdb.requests,
        vec![
            "search Diuna None".to_string(),
            "search Diuna Some(2021)".to_string(),
            format!("page {url}"),
            "search Dune None".to_string(),
            "search Dune Some(2021)".to_string(),
        ]
    );
}

#[test]
fn movie_lookup_skips_the_page_of_other_sites_and_fetches_details_of_the_three_best_in_rank_order() {
    let results = vec![
        tmdb_search_result(11, "Obcy", "Alien", "1979-05-25", "en", 8.2, 900, "Space horror."),
        tmdb_search_result(12, "Obcy: Romulus", "Alien: Romulus", "2024-08-16", "en", 7.1, 300, "Sequel."),
        tmdb_search_result(13, "Obcy 3", "Alien 3", "1992-05-22", "en", 6.4, 200, "Third."),
        tmdb_search_result(14, "Obcy: Przebudzenie", "Alien Resurrection", "1997-11-26", "en", 6.2, 150, "Fourth."),
    ];
    let mut tmdb = FakeTmdb::default().search("Obcy Kino", results);
    let _ = tmdb.ratings(lookup_movie_with_metadata(
        "Obcy Kino",
        MovieLookupMetadata {
            movie_page_url: Some("https://example.com/obcy".to_string()),
            ..MovieLookupMetadata::default()
        },
    ));
    assert_eq!(tmdb.requests[0], "search Obcy Kino None");
    assert!(!tmdb.requests.iter().any(|request| request.starts_with("page ")));
    let fetched: Vec<&String> = tmdb.requests.iter().filter(|request| request.starts_with("details ")).collect();
    assert_eq!(fetched.len(), 3);
    assert_eq!(tmdb.requests.last().map(|request| request.starts_with("details ")), Some(true));
}

#[test]
fn movie_lookup_fails_with_the_error_of_a_failed_search() {
    let mut tmdb = FakeTmdb::default();
    let error = tmdb.ratings(lookup_movie("Nieznany film")).unwrap_err();
    assert_eq!(error, AppError::Http("TMDB request failed with status 404 Not Found.".to_string()));
    assert_eq!(tmdb.requests, vec!["search Nieznany film None".to_string()]);
}
