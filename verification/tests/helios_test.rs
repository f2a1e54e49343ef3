use quick_repertoire::browser::RenderedPage;
use quick_repertoire::error::AppError;
use quick_repertoire::helios::{
    evaluation_payload, missing_evaluation_error, Helios, HeliosCatalogItem, HeliosCinemaScreen, HeliosCurrentCinema,
    HeliosDateEntry, HeliosDayScreening, HeliosMoviePrint, HeliosNamedValue, HeliosRepertoireState,
    DEFAULT_HELIOS_BASE_URL, DEFAULT_HELIOS_VENUES_URL,
};

#[test]
fn helios_venues_come_from_cinema_links() {
    let html = r#"
      <html><body>
        <a href="/lodz/kino-helios"> Łódź
           - Helios Sala Dream </a>
        <a href="/lodz/kino-helios/">Łódź duplicate</a>
        <a href="/gdynia/kino-helios">Gdynia - Helios</a>
        <a href="/kino-helios">   </a>
        <a href="/kontakt">Kontakt</a>
      </body></html>
    "#;
    let venues = Helios::parse_venues(html);
    assert_eq!(
        venues.into_iter().map(|venue| (venue.chain_id, venue.venue_id, venue.venue_name)).collect::<Vec<_>>(),
        vec![
            ("helios".to_string(), "lodz/kino-helios".to_string(), "Łódź - Helios".to_string()),
            ("helios".to_string(), "gdynia/kino-helios".to_string(), "Gdynia - Helios".to_string()),
        ]
    );
}

#[test]
fn helios_repertoire_urls_join_base_and_venue() {
    let helios = Helios::new("https://helios.pl/".to_string(), "https://helios.pl/".to_string());
    assert_eq!(helios.build_repertoire_url("/lodz/kino-helios/"), "https://helios.pl/lodz/kino-helios/repertuar");
    assert_eq!(helios.repertoire_page_url("lodz/kino-helios"), "https://helios.pl/lodz/kino-helios/repertuar");
}

#[test]
fn missing_page_state_is_reported_by_name() {
    let error = missing_evaluation_error("repertoire");
    assert_eq!(error.message(), "Brak wyniku skryptu `repertoire` podczas odczytu danych Helios.");
}

#[test]
fn page_script_results_are_found_by_name() {
    let page = RenderedPage {
        html: "<html></html>".to_string(),
        evaluations: vec![
            ("repertoire".to_string(), "{\"list\":[]}".to_string()),
            ("current_cinema".to_string(), "{\"slug\":\"old\"}".to_string()),
            ("current_cinema".to_string(), "{\"slug\":\"kino-helios\"}".to_string()),
        ],
    };
    assert_eq!(page.evaluation("repertoire"), Some("{\"list\":[]}"));
    assert_eq!(page.evaluation("current_cinema"), Some("{\"slug\":\"kino-helios\"}"));
    assert_eq!(evaluation_payload(&page, "repertoire"), Ok("{\"list\":[]}".to_string()));
    assert_eq!(
        evaluation_payload(&page, "missing"),
        Err(AppError::BrowserUnavailable("Brak wyniku skryptu `missing` podczas odczytu danych Helios.".to_string()))
    );
}

#[test]
fn repertoire_pages_are_rendered_with_state_and_cinema_scripts() {
    let evaluations = Helios::repertoire_evaluations();
    assert_eq!(evaluations.len(), 2);
    assert_eq!(evaluations[0].name, "repertoire");
    assert_eq!(evaluations[0].expression, "JSON.stringify(window.__NUXT__.state.repertoire)");
    assert_eq!(evaluations[1].name, "current_cinema");
    assert_eq!(
        evaluations[1].expression,
        "JSON.stringify(window.__NUXT__.state.cinema || window.__NUXT__.state.core.current)"
    );
}

#[test]
fn fetch_repertoire_handles_imax_and_missing_language_from_state() {
    let state = HeliosRepertoireState {
        list: vec![HeliosCatalogItem {
            id: 9001,
            source_id: "movie-source".to_string(),
            title: "Imax Test".to_string(),
            title_original: Some("Imax Test Original".to_string()),
            slug: "imax-test".to_string(),
            duration: Some(120),
            genres: vec![HeliosNamedValue { name: "science fiction".to_string() }],
            premiere_date: Some("2026-05-01".to_string()),
            cinema_premiere_date: None,
            is_event: false,
            is_imax: true,
        }],
        screenings: vec![(
            "2026-05-01".to_string(),
            vec![(
                "m9001".to_string(),
                HeliosDateEntry {
                    screenings: vec![HeliosDayScreening {
                        time_from: "2026-05-01 19:30:00".to_string(),
                        source_id: "screening-source".to_string(),
                        cinema_source_id: "cinema-source".to_string(),
                        cinema_screen: HeliosCinemaScreen { feature: "Imax".to_string() },
                        movie_print: HeliosMoviePrint {
                            print_type: "3D".to_string(),
                            print_release: "IMAX/3D".to_string(),
                            sound_type: "5.1".to_string(),
                            speaking_type_label: None,
                        },
                        event: None,
                        screening_movies: Vec::new(),
                    }],
                },
            )],
        )],
    };
    let cinema = HeliosCurrentCinema { slug_city: "warszawa".to_string(), slug: "kino-helios-blue-city".to_string() };
    let client = Helios::new(DEFAULT_HELIOS_BASE_URL.to_string(), DEFAULT_HELIOS_VENUES_URL.to_string());
    let route_fragment = cinema.route_fragment();
    let page_url = client.repertoire_page_url(&route_fragment);

    let repertoire = Helios::parse_repertoire("2026-05-01", &client.base_url, &route_fragment, &page_url, &state);

    assert_eq!(repertoire.len(), 1);
    assert_eq!(repertoire[0].play_details[0].format, "IMAX 3D");
    assert_eq!(repertoire[0].play_details[0].play_language, "Brak danych");
    assert_eq!(
        repertoire[0].lookup_metadata.movie_page_url.as_deref(),
        Some("https://helios.pl/warszawa/kino-helios-blue-city/filmy/imax-test-9001")
    );
    assert_eq!(repertoire[0].lookup_metadata.alternate_titles, vec!["Imax Test Original".to_string()]);
}
