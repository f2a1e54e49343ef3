use quick_repertoire::multikino::{
    classify_status, AttributeRules, Multikino, MultikinoApiResponse, MultikinoCinema, MultikinoCinemaGroup,
    MultikinoFilm, MultikinoSession, MultikinoShowingAttribute, MultikinoShowingAttributeGroup, MultikinoShowingGroup,
};
use quick_repertoire::error::AppError;
use quick_repertoire::retry::RetryDirective;

const BASE: &str = "https://www.multikino.pl";

fn cinema(id: &str, name: &str, full_name: &str) -> MultikinoCinema {
    MultikinoCinema { cinema_id: id.to_string(), cinema_name: name.to_string(), full_name: Some(full_name.to_string()) }
}

fn attribute(name: &str, attribute_type: &str) -> MultikinoShowingAttribute {
    MultikinoShowingAttribute { name: name.to_string(), attribute_type: attribute_type.to_string() }
}

fn session(booking: &str, start: &str, attributes: Vec<MultikinoShowingAttribute>) -> MultikinoSession {
    MultikinoSession {
        booking_url: Some(booking.to_string()),
        start_time: start.to_string(),
        is_sold_out: false,
        is_booking_available: true,
        attributes,
    }
}

#[test]
fn fetch_venues_parses_multikino_api_response() {
    let groups = vec![
        MultikinoCinemaGroup {
            cinemas: vec![
                cinema("0034", "Warszawa Złote Tarasy", "Warszawa Złote Tarasy"),
                cinema("0052", "Wrocław Pasaż Grunwaldzki", "Wrocław Pasaż Grunwaldzki"),
            ],
        },
        MultikinoCinemaGroup { cinemas: vec![cinema("0010", "Łódź", "Łódź")] },
    ];
    let venues = Multikino::parse_venues(&groups);
    assert_eq!(
        venues.into_iter().map(|venue| (venue.chain_id, venue.venue_id, venue.venue_name)).collect::<Vec<_>>(),
        vec![
            ("multikino".to_string(), "0034".to_string(), "Warszawa Złote Tarasy".to_string()),
            ("multikino".to_string(), "0052".to_string(), "Wrocław Pasaż Grunwaldzki".to_string()),
            ("multikino".to_string(), "0010".to_string(), "Łódź".to_string()),
        ]
    );
}

#[test]
fn fetch_venues_trims_ids_and_deduplicates_whitespace_variants() {
    let groups = vec![MultikinoCinemaGroup {
        cinemas: vec![
            cinema(" 0034 ", "Warszawa Złote Tarasy", "  Warszawa Złote Tarasy  "),
            cinema("0034", "Warszawa duplicate", "Warszawa duplicate"),
            cinema(" 0052", "Wrocław Pasaż Grunwaldzki", "Wrocław Pasaż Grunwaldzki"),
            cinema("   ", "Ignored", "Ignored"),
        ],
    }];
    let mut actual = Multikino::parse_venues(&groups)
        .into_iter()
        .map(|venue| (venue.venue_id, venue.venue_name))
        .collect::<Vec<_>>();
    actual.sort_by(|left, right| left.0.cmp(&right.0));
    assert_eq!(
        actual,
        vec![
            ("0034".to_string(), "Warszawa Złote Tarasy".to_string()),
            ("0052".to_string(), "Wrocław Pasaż Grunwaldzki".to_string()),
        ]
    );
}

fn films() -> Vec<MultikinoFilm> {
    vec![
        MultikinoFilm {
            film_id: "HO00002328".to_string(),
            film_url: Some(format!("{BASE}/filmy/projekt-hail-mary")),
            film_title: "Projekt Hail Mary".to_string(),
            original_title: Some("Project Hail Mary".to_string()),
            release_date: Some("2026-03-20T00:00:00".to_string()),
            running_time: 157,
            is_duration_unknown: false,
            genres: vec!["science fiction".to_string(), "thriller".to_string()],
            showing_groups: vec![
                MultikinoShowingGroup {
                    date: "2026-04-03T00:00:00".to_string(),
                    sessions: vec![
                        session(
                            "/rezerwacja-biletow/podsumowanie/0034/HO00002328/64811",
                            "2026-04-03T18:30:00",
                            vec![attribute("NAPISY", "Language"), attribute("2D", "Session"), attribute("Single Seat", "Session")],
                        ),
                        session(
                            "/rezerwacja-biletow/podsumowanie/0034/HO00002328/64812",
                            "2026-04-03T20:00:00",
                            vec![attribute("NAPISY", "Language"), attribute("2D", "Session"), attribute("SUPERHIT", "Session")],
                        ),
                        session(
                            "/rezerwacja-biletow/podsumowanie/0034/HO00002328/64813",
                            "2026-04-03T21:15:00",
                            vec![attribute("DUBBING", "Language"), attribute("2D", "Session")],
                        ),
                    ],
                },
                MultikinoShowingGroup {
                    date: "2026-04-04T00:00:00".to_string(),
                    sessions: vec![session(
                        "/rezerwacja-biletow/podsumowanie/0034/HO00002328/64814",
                        "2026-04-04T10:30:00",
                        vec![attribute("NAPISY", "Language"), attribute("2D", "Session")],
                    )],
                },
            ],
        },
        MultikinoFilm {
            film_id: "HO00002255".to_string(),
            film_url: Some(format!("{BASE}/filmy/rbo-sezon-kinowy-2025-26-czarodziejski-flet")),
            film_title: "Royal Ballet and Opera Sezon Kinowy 2025-26: Czarodziejski flet".to_string(),
            original_title: Some("RBO Cinema Season 2025-26: The Magic Flute".to_string()),
            release_date: Some("2026-04-26T00:00:00".to_string()),
            running_time: 210,
            is_duration_unknown: false,
            genres: vec!["opera".to_string()],
            showing_groups: vec![MultikinoShowingGroup {
                date: "2026-04-03T00:00:00".to_string(),
                sessions: vec![session(
                    "/rezerwacja-biletow/podsumowanie/0034/HO00002255/46519",
                    "2026-04-03T15:00:00",
                    vec![
                        attribute("NAPISY", "Language"),
                        attribute("2D", "Session"),
                        attribute("KULTOWE KINO", "Session"),
                        attribute("OPERA", "Movie"),
                    ],
                )],
            }],
        },
        MultikinoFilm {
            film_id: "HO00009999".to_string(),
            film_url: Some(format!("{BASE}/filmy/inna-data")),
            film_title: "Inna data".to_string(),
            original_title: None,
            release_date: None,
            running_time: 101,
            is_duration_unknown: false,
            genres: vec!["dramat".to_string()],
            showing_groups: vec![MultikinoShowingGroup {
                date: "2026-04-07T00:00:00".to_string(),
                sessions: vec![session(
                    "/rezerwacja-biletow/podsumowanie/0034/HO00009999/99999",
                    "2026-04-07T19:00:00",
                    vec![attribute("NAPISY", "Language"), attribute("2D", "Session")],
                )],
            }],
        },
    ]
}

fn attribute_groups() -> Vec<MultikinoShowingAttributeGroup> {
    vec![
        MultikinoShowingAttributeGroup {
            name: "Rodzaj pokazu".to_string(),
            showing_attributes: vec![attribute("2D", "Session"), attribute("KULTOWE KINO", "Session")],
        },
        MultikinoShowingAttributeGroup {
            name: "Wersja językowa".to_string(),
            showing_attributes: vec![
                attribute("DUBBING", "Language"),
                attribute("NAPISY", "Language"),
                attribute("POLSKI", "Language"),
            ],
        },
    ]
}

#[test]
fn fetch_repertoire_groups_multikino_sessions_by_format_and_language() {
    let client = Multikino::new(BASE.to_string());
    let rules = Multikino::extract_attribute_rules(&attribute_groups());
    let repertoire = client.parse_repertoire("2026-04-03", &films(), &rules);

    assert_eq!(repertoire.len(), 2);
    let hail_mary = &repertoire[0];
    assert_eq!(hail_mary.title, "Projekt Hail Mary");
    assert_eq!(hail_mary.genres, "science fiction, thriller");
    assert_eq!(hail_mary.play_length, "157 min");
    assert_eq!(hail_mary.original_language, "Brak danych");
    assert_eq!(hail_mary.lookup_metadata.chain_movie_id.as_deref(), Some("HO00002328"));
    assert_eq!(hail_mary.lookup_metadata.movie_page_url.as_deref(), Some("https://www.multikino.pl/filmy/projekt-hail-mary"));
    assert_eq!(hail_mary.lookup_metadata.alternate_titles, vec!["Project Hail Mary".to_string()]);
    assert_eq!(hail_mary.lookup_metadata.runtime_minutes, Some(157));
    assert_eq!(hail_mary.lookup_metadata.polish_premiere_date.as_deref(), Some("2026-03-20"));
    assert_eq!(hail_mary.lookup_metadata.production_year, Some(2026));
    assert_eq!(hail_mary.lookup_metadata.genre_tags, vec!["science fiction", "thriller"]);
    assert_eq!(hail_mary.play_details.len(), 2);
    assert_eq!(hail_mary.play_details[0].format, "2D");
    assert_eq!(hail_mary.play_details[0].play_language, "NAPISY");
    assert_eq!(
        hail_mary.play_details[0].play_times.iter().map(|t| (t.value.as_str(), t.url.as_deref())).collect::<Vec<_>>(),
        vec![
            ("18:30", Some("https://www.multikino.pl/rezerwacja-biletow/podsumowanie/0034/HO00002328/64811")),
            ("20:00", Some("https://www.multikino.pl/rezerwacja-biletow/podsumowanie/0034/HO00002328/64812")),
        ]
    );
    assert_eq!(hail_mary.play_details[1].format, "2D");
    assert_eq!(hail_mary.play_details[1].play_language, "DUBBING");
    assert_eq!(hail_mary.play_details[1].play_times[0].value, "21:15");

    let magic_flute = &repertoire[1];
    assert_eq!(magic_flute.title, "Royal Ballet and Opera Sezon Kinowy 2025-26: Czarodziejski flet");
    assert_eq!(magic_flute.genres, "opera");
    assert_eq!(magic_flute.play_details.len(), 1);
    assert_eq!(magic_flute.play_details[0].format, "2D KULTOWE KINO");
    assert_eq!(magic_flute.play_details[0].play_language, "NAPISY");
    assert_eq!(magic_flute.play_details[0].play_times[0].value, "15:00");
}

#[test]
fn sessions_fall_back_to_all_attributes_when_no_rule_matches() {
    let client = Multikino::new(BASE.to_string());
    let rules = AttributeRules { format_names: vec!["IMAX".to_string()], language_names: Vec::new() };
    let repertoire = client.parse_repertoire("2026-04-07", &films(), &rules);
    assert_eq!(repertoire.len(), 1);
    assert_eq!(repertoire[0].play_details[0].format, "2D");
    assert_eq!(repertoire[0].play_details[0].play_language, "NAPISY");
}

#[test]
fn sold_out_sessions_have_no_booking_link() {
    let client = Multikino::new(BASE.to_string());
    let mut all = films();
    all[2].showing_groups[0].sessions[0].is_sold_out = true;
    let repertoire = client.parse_repertoire("2026-04-07", &all, &AttributeRules::empty());
    assert_eq!(repertoire[0].play_details[0].play_times[0].url, None);
}

#[test]
fn api_urls_use_the_trimmed_venue_id() {
    let client = Multikino::new(BASE.to_string()).with_showings_api_base_url("https://api/showings/".to_string());
    assert_eq!(client.venues_url(), "https://api/showings/cinemas");
    assert_eq!(
        client.films_url(" 0034 "),
        "https://api/showings/cinemas/0034/films?minEmbargoLevel=3&includesSession=true&includeSessionAttributes=true"
    );
    assert_eq!(
        client.attribute_groups_url("0034"),
        "https://api/showings/attributes/showingAttributeGroups?cinemaId=0034&minEmbargoLevel=2"
    );
}

#[test]
fn api_responses_with_error_codes_are_errors() {
    let ok = MultikinoApiResponse { result: 7, response_code: 0, error_message: None };
    assert_eq!(ok.into_result("pobierania"), Ok(7));
    let failed = MultikinoApiResponse { result: 7, response_code: 5, error_message: None };
    assert_eq!(
        failed.into_result("pobierania"),
        Err(AppError::Http("API Multikino zwróciło błąd podczas pobierania: kod 5".to_string()))
    );
}

#[test]
fn api_statuses_are_classified() {
    assert!(classify_status("pobierania", 200, None).is_none());
    assert!(matches!(classify_status("pobierania", 429, None), Some(RetryDirective::Retry(_))));
    assert!(matches!(classify_status("pobierania", 404, Some(5)), Some(RetryDirective::Fail(_))));
    assert_eq!(
        classify_status("pobierania", 503, None),
        Some(RetryDirective::Retry(AppError::Http(
            "API Multikino zwróciło błąd podczas pobierania: status 503 Service Unavailable".to_string()
        )))
    );
}

#[test]
fn sessions_are_listed_by_start_time() {
    let client = Multikino::new(BASE.to_string());
    let mut all = films();
    all[0].showing_groups[0].sessions.reverse();
    let repertoire = client.parse_repertoire("2026-04-03", &all, &AttributeRules::empty());
    let times = repertoire[0].play_details.iter().flat_map(|d| d.play_times.iter().map(|t| t.value.clone())).collect::<Vec<_>>();
    assert_eq!(times, vec!["18:30".to_string(), "20:00".to_string(), "21:15".to_string()]);
    assert_eq!(repertoire[0].play_details[0].play_language, "NAPISY");
}

#[test]
fn fetch_venues_honors_retry_after_header_on_rate_limit() {
    let delay = quick_repertoire::retry::retry_after_delay(Some("0"));
    assert_eq!(delay, Some(0));
    assert_eq!(
        classify_status("pobierania listy lokali", 429, delay),
        Some(RetryDirective::RetryAfter {
            error: AppError::Http(
                "API Multikino zwróciło błąd podczas pobierania listy lokali: status 429 Too Many Requests".to_string()
            ),
            delay_nanos: 0,
        })
    );
    let policy = quick_repertoire::retry::RetryPolicy::new(2, 1_000_000_000, 1_000_000_000);
    assert_eq!(
        policy.after_failure(1, classify_status("pobierania listy lokali", 429, delay).unwrap()),
        quick_repertoire::retry::RetryStep::WaitThenRetry(0)
    );
}
