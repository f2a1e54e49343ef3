use quick_repertoire::commands::{
    apply_configuration, chain_choices, day_choices, gather_venue_lists, plan_ratings, ratings_or_warning,
    venue_update_message,
    resolve_chain, resolve_single_venue, resolve_venue_name, venue_choices, venue_search_pattern, RatingsPlan,
    MISSING_TOKEN_WARNING, TMDB_FAILURE_WARNING, VenueFetch,
};
use quick_repertoire::config::{default_choice_index, DefaultVenues, SelectionChoice, Settings, UserPreferences};
use quick_repertoire::domain::{
    CinemaChainId, CinemaVenue, MovieLookupMetadata, MoviePlayDetails, MoviePlayTime, Repertoire,
    RepertoireCliTableMetadata, TmdbLookupMovie, TmdbMovieDetails,
};
use quick_repertoire::output::{
    cinema_venue_input_parser, date_input_parser, render_repertoire_table_with_width, BufferTerminal, Terminal,
};
use quick_repertoire::error::AppError;
use quick_repertoire::registry::{RegisteredCinemaChain, Registry};

fn venue(chain: &str, id: &str, name: &str) -> CinemaVenue {
    CinemaVenue { chain_id: chain.to_string(), venue_id: id.to_string(), venue_name: name.to_string() }
}

fn settings() -> Settings {
    let mut default_venues = DefaultVenues::default();
    default_venues.set(CinemaChainId::CinemaCity, Some("Wroclaw - Wroclavia".to_string()));
    Settings {
        user_preferences: UserPreferences {
            default_chain: CinemaChainId::CinemaCity,
            default_day: "dziś".to_string(),
            tmdb_access_token: None,
            default_venues,
        },
    }
}

fn registry() -> Registry {
    Registry::from_chains(vec![
        RegisteredCinemaChain { chain_id: CinemaChainId::Helios, display_name: "Helios".to_string() },
        RegisteredCinemaChain { chain_id: CinemaChainId::CinemaCity, display_name: "Cinema City".to_string() },
    ])
}

#[test]
fn single_venue_is_required() {
    assert_eq!(resolve_single_venue(&Vec::new()), Err(AppError::VenueNotFound));
    let one = vec![venue("helios", "a", "A")];
    assert_eq!(resolve_single_venue(&one), Ok(venue("helios", "a", "A")));
    let two = vec![venue("helios", "a", "A"), venue("helios", "b", "B")];
    assert_eq!(resolve_single_venue(&two), Err(AppError::AmbiguousVenueMatch { matches_count: 2 }));
}

#[test]
fn chains_resolve_from_the_command_line_or_the_default() {
    let registry = registry();
    assert_eq!(resolve_chain(Some("Helios".to_string()), &settings(), &registry).unwrap().display_name, "Helios");
    assert_eq!(resolve_chain(None, &settings(), &registry).unwrap().chain_id, CinemaChainId::CinemaCity);
    assert!(matches!(
        resolve_chain(Some("multikino".to_string()), &settings(), &registry),
        Err(AppError::UnsupportedCinemaChain { .. })
    ));
    assert!(matches!(
        resolve_chain(Some("kino".to_string()), &settings(), &registry),
        Err(AppError::UnsupportedCinemaChain { .. })
    ));
}

#[test]
fn venue_names_fall_back_to_the_default_venue() {
    let helios = RegisteredCinemaChain { chain_id: CinemaChainId::Helios, display_name: "Helios".to_string() };
    let cinema_city = RegisteredCinemaChain { chain_id: CinemaChainId::CinemaCity, display_name: "Cinema City".to_string() };
    assert_eq!(resolve_venue_name(Some("X".to_string()), &helios, &settings()), Ok("X".to_string()));
    assert_eq!(resolve_venue_name(None, &cinema_city, &settings()), Ok("Wroclaw - Wroclavia".to_string()));
    assert_eq!(
        resolve_venue_name(None, &helios, &settings()),
        Err(AppError::DefaultVenueNotConfigured { chain_display_name: "Helios".to_string() })
    );
}

#[test]
fn venue_searches_match_anywhere_unless_a_pattern_is_given() {
    assert_eq!(venue_search_pattern("Wroc"), "%Wroc%");
    assert_eq!(venue_search_pattern("%Wroc%"), "%Wroc%");
}

#[test]
fn ratings_are_only_asked_for_with_a_token() {
    assert_eq!(plan_ratings(0, Some("t")), RatingsPlan::Skip);
    assert_eq!(plan_ratings(2, None), RatingsPlan::MissingToken);
    assert_eq!(plan_ratings(2, Some("t")), RatingsPlan::Fetch("t".to_string()));
    let (ratings, warning) = ratings_or_warning::<u8>(Err(AppError::Http("x".to_string())));
    assert!(ratings.is_empty());
    assert_eq!(warning, Some(TMDB_FAILURE_WARNING));
}

#[test]
fn venue_refresh_sorts_venues_and_reports_failed_chains() {
    let gathered = gather_venue_lists(vec![(
        CinemaChainId::CinemaCity,
        "Cinema City".to_string(),
        Ok(vec![venue("cinema-city", "3", "Wroclaw - Wroclavia"), venue("cinema-city", "2", "lodz - Manufaktura")]),
    )])
    .unwrap();
    assert_eq!(gathered[0].1[0].venue_id, "2");

    let error = gather_venue_lists(vec![
        (CinemaChainId::Multikino, "Multikino".to_string(), Ok(Vec::new())),
        (CinemaChainId::CinemaCity, "Cinema City".to_string(), Err(AppError::configuration("boom".to_string()))),
        (CinemaChainId::Helios, "Helios".to_string(), Ok(vec![venue("helios", "a", "A")])),
    ])
    .unwrap_err();
    assert_eq!(
        error.message(),
        "Nie udało się pobrać list lokali dla wszystkich sieci. Niepowodzenie: Cinema City, Multikino."
    );
}

#[test]
fn configuration_choices_and_answers() {
    let choices = chain_choices(&registry());
    assert_eq!(choices.iter().map(|c| c.title.as_str()).collect::<Vec<_>>(), vec!["Cinema City", "Helios"]);
    assert_eq!(choices[1].value, "helios");
    assert_eq!(day_choices().len(), 2);

    let gathered = vec![(CinemaChainId::Helios, vec![venue("helios", "lodz/kino-helios", "Łódź - Helios")])];
    assert_eq!(venue_choices(&gathered, CinemaChainId::Helios).unwrap()[0].value, "Łódź - Helios");
    assert_eq!(
        venue_choices(&gathered, CinemaChainId::CinemaCity),
        Err(AppError::Configuration("Brak lokali dla wybranej sieci.".to_string()))
    );

    let configured = apply_configuration(settings(), CinemaChainId::Helios, "jutro".to_string(), "Łódź - Helios".to_string(), "  ".to_string());
    assert_eq!(configured.user_preferences.default_chain, CinemaChainId::Helios);
    assert_eq!(configured.get_default_venue(CinemaChainId::Helios), Some("Łódź - Helios"));
    assert_eq!(configured.get_default_venue(CinemaChainId::CinemaCity), Some("Wroclaw - Wroclavia"));
    assert_eq!(configured.user_preferences.tmdb_access_token, None);
}

#[test]
fn registry_lookups_give_the_last_registration() {
    let registry = Registry::from_chains(vec![
        RegisteredCinemaChain { chain_id: CinemaChainId::Helios, display_name: "Helios old".to_string() },
        RegisteredCinemaChain { chain_id: CinemaChainId::Helios, display_name: "Helios".to_string() },
    ]);
    assert_eq!(registry.get_registered_chain(CinemaChainId::Helios).unwrap().display_name, "Helios");
    assert_eq!(registry.get_registered_chains().len(), 1);
    let cinema_city_only = Registry::from_chains(vec![RegisteredCinemaChain {
        chain_id: CinemaChainId::CinemaCity,
        display_name: "Cinema City".to_string(),
    }]);
    assert_eq!(
        cinema_city_only.get_registered_chain(CinemaChainId::Multikino),
        Err(AppError::UnsupportedCinemaChain {
            invalid_chain: "multikino".to_string(),
            supported_chains: "cinema-city, helios, multikino".to_string(),
        })
    );
}

#[test]
fn default_registry_offers_every_supported_chain_by_display_name() {
    let names = Registry::new()
        .get_registered_chains()
        .into_iter()
        .map(|chain| (chain.display_name, chain.chain_id))
        .collect::<Vec<_>>();
    assert_eq!(
        names,
        vec![
            ("Cinema City".to_string(), CinemaChainId::CinemaCity),
            ("Helios".to_string(), CinemaChainId::Helios),
            ("Multikino".to_string(), CinemaChainId::Multikino),
        ]
    );
}

#[test]
fn venue_updates_announce_every_chain_they_refresh() {
    assert_eq!(
        venue_update_message(&vec![RegisteredCinemaChain {
            chain_id: CinemaChainId::CinemaCity,
            display_name: "Cinema City".to_string(),
        }]),
        "Aktualizowanie lokali dla sieci: Cinema City..."
    );
    assert_eq!(
        venue_update_message(&Registry::new().get_registered_chains()),
        "Aktualizowanie lokali dla sieci: Cinema City, Helios, Multikino..."
    );
}

/// The configuration's choices, answered from `selections` in order and, once those run out,
/// with each prompt's default (or its first choice).
struct ScriptedPrompt {
    selections: Vec<String>,
    text: Option<String>,
}

impl ScriptedPrompt {
    fn select(&mut self, choices: &[SelectionChoice], default: Option<&str>) -> String {
        if !self.selections.is_empty() {
            return self.selections.remove(0);
        }
        choices[default_choice_index(choices, default)].value.clone()
    }
}

/// The configuration's decisions over fetched venue lists: gather them, ask for the chain,
/// the day, the venue and the token, and build the settings and the venues to store.
fn configure(
    base: Option<Settings>,
    registry: &Registry,
    fetches: Vec<VenueFetch>,
    prompt: &mut ScriptedPrompt,
) -> Result<(Settings, Vec<(CinemaChainId, Vec<CinemaVenue>)>), AppError> {
    let base = base.unwrap_or_else(Settings::default_settings);
    let gathered = gather_venue_lists(fetches)?;
    let chain = prompt.select(&chain_choices(registry), Some(base.user_preferences.default_chain.as_str()));
    let chain_id = CinemaChainId::from_value(&chain)?;
    let day = prompt.select(&day_choices(), Some(base.user_preferences.default_day.as_str()));
    let venue = prompt.select(&venue_choices(&gathered, chain_id)?, base.get_default_venue(chain_id));
    let token = prompt
        .text
        .clone()
        .unwrap_or_else(|| base.user_preferences.tmdb_access_token.clone().unwrap_or_default());
    Ok((apply_configuration(base.clone(), chain_id, day, venue, token), gathered))
}

fn cinema_city_only() -> Registry {
    Registry::from_chains(vec![RegisteredCinemaChain {
        chain_id: CinemaChainId::CinemaCity,
        display_name: "Cinema City".to_string(),
    }])
}

fn stored(gathered: &[(CinemaChainId, Vec<CinemaVenue>)], chain_id: CinemaChainId) -> Vec<(String, String)> {
    gathered
        .iter()
        .find(|(id, _)| *id == chain_id)
        .map(|(_, venues)| venues.iter().map(|v| (v.venue_name.clone(), v.venue_id.clone())).collect())
        .unwrap_or_default()
}

#[test]
fn run_interactive_configuration_persists_selected_settings_and_venues() {
    let fetches = vec![(
        CinemaChainId::CinemaCity,
        "Cinema City".to_string(),
        Ok(vec![venue("cinema-city", "2", "Warszawa - Janki"), venue("cinema-city", "3", "Wroclaw - Wroclavia")]),
    )];
    let mut prompt = ScriptedPrompt {
        selections: vec!["cinema-city".to_string(), "dziś".to_string(), "Wroclaw - Wroclavia".to_string()],
        text: Some("tmdb-token".to_string()),
    };

    let (configured, gathered) = configure(None, &cinema_city_only(), fetches, &mut prompt).unwrap();

    assert_eq!(configured.user_preferences.tmdb_access_token, Some("tmdb-token".to_string()));
    assert_eq!(configured.get_default_venue(CinemaChainId::CinemaCity), Some("Wroclaw - Wroclavia"));
    assert_eq!(
        stored(&gathered, CinemaChainId::CinemaCity),
        vec![
            ("Warszawa - Janki".to_string(), "2".to_string()),
            ("Wroclaw - Wroclavia".to_string(), "3".to_string())
        ]
    );
}

#[test]
fn run_interactive_configuration_preserves_existing_default_venue_for_other_chain() {
    let registry = Registry::from_chains(vec![
        RegisteredCinemaChain { chain_id: CinemaChainId::CinemaCity, display_name: "Cinema City".to_string() },
        RegisteredCinemaChain { chain_id: CinemaChainId::Helios, display_name: "Helios".to_string() },
    ]);
    let fetches = vec![
        (
            CinemaChainId::CinemaCity,
            "Cinema City".to_string(),
            Ok(vec![venue("cinema-city", "3", "Wroclaw - Wroclavia")]),
        ),
        (
            CinemaChainId::Helios,
            "Helios".to_string(),
            Ok(vec![
                venue("helios", "gdynia/kino-helios", "Gdynia - Helios"),
                venue("helios", "lodz/kino-helios", "Łódź - Helios"),
            ]),
        ),
    ];
    let mut prompt = ScriptedPrompt {
        selections: vec!["helios".to_string(), "jutro".to_string(), "Łódź - Helios".to_string()],
        text: Some("tmdb-token".to_string()),
    };

    let (configured, gathered) = configure(Some(settings()), &registry, fetches, &mut prompt).unwrap();

    assert_eq!(configured.user_preferences.default_chain, CinemaChainId::Helios);
    assert_eq!(configured.get_default_venue(CinemaChainId::CinemaCity), Some("Wroclaw - Wroclavia"));
    assert_eq!(configured.get_default_venue(CinemaChainId::Helios), Some("Łódź - Helios"));
    assert_eq!(
        stored(&gathered, CinemaChainId::Helios),
        vec![
            ("Gdynia - Helios".to_string(), "gdynia/kino-helios".to_string()),
            ("Łódź - Helios".to_string(), "lodz/kino-helios".to_string())
        ]
    );
}

#[test]
fn run_interactive_configuration_defaults_venue_to_first_sorted_option() {
    let fetches = vec![(
        CinemaChainId::CinemaCity,
        "Cinema City".to_string(),
        Ok(vec![venue("cinema-city", "3", "Wroclaw - Wroclavia"), venue("cinema-city", "2", "Lodz - Manufaktura")]),
    )];
    let mut prompt = ScriptedPrompt { selections: Vec::new(), text: None };

    let (configured, _) = configure(None, &cinema_city_only(), fetches, &mut prompt).unwrap();

    assert_eq!(configured.get_default_venue(CinemaChainId::CinemaCity), Some("Lodz - Manufaktura"));
}

#[test]
fn run_interactive_configuration_does_not_create_config_when_venue_fetch_fails() {
    let fetches = vec![(CinemaChainId::CinemaCity, "Cinema City".to_string(), Err(AppError::configuration("boom".to_string())))];
    let mut prompt = ScriptedPrompt { selections: Vec::new(), text: None };

    let error = configure(None, &cinema_city_only(), fetches, &mut prompt).unwrap_err();

    assert_eq!(
        error.message(),
        "Nie udało się pobrać list lokali dla wszystkich sieci. Niepowodzenie: Cinema City."
    );
}

fn test_movie() -> Repertoire {
    Repertoire {
        title: "Test Movie".to_string(),
        genres: "Thriller".to_string(),
        play_length: "120 min".to_string(),
        original_language: "EN".to_string(),
        play_details: vec![MoviePlayDetails {
            format: "2D".to_string(),
            play_language: "NAP: PL".to_string(),
            play_times: vec![
                MoviePlayTime { value: "10:00".to_string(), url: None },
                MoviePlayTime { value: "12:30".to_string(), url: None },
            ],
        }],
        lookup_metadata: MovieLookupMetadata::empty(),
    }
}

/// The repertoire command over a stored venue list, a fetched repertoire and the answer of
/// the ratings service: the exit code and what it printed.
fn run_repertoire(
    settings: &Settings,
    chain: Option<&str>,
    venue_name: Option<&str>,
    stored_venues: &[CinemaVenue],
    repertoire: Vec<Repertoire>,
    ratings: Result<Vec<(String, TmdbMovieDetails)>, AppError>,
) -> (i32, String) {
    let mut terminal = BufferTerminal::new();
    let registry = cinema_city_only();
    let result = (|| -> Result<(), AppError> {
        let registered = resolve_chain(chain.map(str::to_string), settings, &registry)?;
        let name = resolve_venue_name(venue_name.map(str::to_string), &registered, settings)?;
        let pattern = cinema_venue_input_parser(&name).to_lowercase();
        let found = stored_venues
            .iter()
            .filter(|venue| {
                let stored = venue.venue_name.to_lowercase();
                pattern.split('%').filter(|piece| !piece.is_empty()).all(|piece| stored.contains(piece))
            })
            .cloned()
            .collect::<Vec<_>>();
        let venue = resolve_single_venue(&found)?;
        let date = date_input_parser("2026-04-01")?;
        let lookups = repertoire.iter().cloned().map(TmdbLookupMovie::from_repertoire).collect::<Vec<_>>();
        let shown = match plan_ratings(lookups.len(), settings.user_preferences.tmdb_access_token.as_deref()) {
            RatingsPlan::Skip => Vec::new(),
            RatingsPlan::MissingToken => {
                terminal.write_line(MISSING_TOKEN_WARNING);
                Vec::new()
            }
            RatingsPlan::Fetch(_) => {
                let (shown, warning) = ratings_or_warning(ratings);
                if let Some(warning) = warning {
                    terminal.write_line(warning);
                }
                shown
            }
        };
        let meta = RepertoireCliTableMetadata {
            chain_display_name: registered.display_name,
            repertoire_date: date,
            cinema_venue_name: venue.venue_name,
        };
        terminal.write_line(&render_repertoire_table_with_width(&repertoire, &meta, &shown, Some(200)));
        Ok(())
    })();
    let code = match result {
        Ok(()) => 0,
        Err(error) => {
            terminal.write_line(&error.message());
            1
        }
    };
    (code, terminal.into_string())
}

fn wroclavia() -> Vec<CinemaVenue> {
    vec![venue("cinema-city", "3", "Wroclaw - Wroclavia")]
}

fn settings_with_token() -> Settings {
    let mut s = settings();
    s.user_preferences.tmdb_access_token = Some("1234".to_string());
    s
}

#[test]
fn repertoire_command_exits_for_unsupported_chain() {
    let (code, output) = run_repertoire(&settings_with_token(), Some("unsupported-chain"), None, &wroclavia(), Vec::new(), Ok(Vec::new()));
    assert_eq!(code, 1);
    assert!(output.contains("Nieobsługiwana sieć kin"));
}

#[test]
fn repertoire_command_uses_default_chain_and_default_venue_when_name_not_provided() {
    let (code, output) = run_repertoire(&settings_with_token(), None, None, &wroclavia(), vec![test_movie()], Ok(Vec::new()));
    assert_eq!(code, 0);
    assert!(output.contains("Repertuar dla Cinema City"));
    assert!(output.contains("Wroclaw - Wroclavia"));
    assert!(output.contains("Test Movie"));
}

#[test]
fn repertoire_command_warns_when_tmdb_is_disabled() {
    let (code, output) = run_repertoire(&settings(), None, Some("wroclavia"), &wroclavia(), vec![test_movie()], Ok(Vec::new()));
    assert_eq!(code, 0);
    assert!(output.contains("Klucz API do usługi TMDB nie jest skonfigurowany"));
    assert!(output.contains("Test Movie"));
}

#[test]
fn repertoire_command_warns_when_tmdb_lookup_fails() {
    let (code, output) = run_repertoire(
        &settings_with_token(),
        None,
        Some("wroclavia"),
        &wroclavia(),
        vec![test_movie()],
        Err(AppError::Http("boom".to_string())),
    );
    assert_eq!(code, 0);
    assert!(output.contains("Nie udało się pobrać danych z usługi TMDB"));
    assert!(output.contains("Test Movie"));
}
