use quick_repertoire::domain::{
    CinemaVenue, MovieLookupMetadata, MoviePlayDetails, MoviePlayTime, Repertoire, RepertoireCliTableMetadata,
    TmdbMovieDetails,
};
use quick_repertoire::output::{
    cinema_venue_input_parser, date_input_parser, keyword_date, BufferTerminal, DateKeyword, Terminal, render_play_time, render_repertoire_table,
    render_repertoire_table_with_width, render_venues_table, HYPERLINK_MARKER_ONE, HYPERLINK_MARKER_PREFIX,
    HYPERLINK_MARKER_SUFFIX, HYPERLINK_MARKER_ZERO,
};

fn metadata() -> RepertoireCliTableMetadata {
    RepertoireCliTableMetadata {
        chain_display_name: "Cinema City".to_string(),
        repertoire_date: "2024-06-01".to_string(),
        cinema_venue_name: "Wroclaw - Wroclavia".to_string(),
    }
}

fn movie(play_times: Vec<MoviePlayTime>) -> Repertoire {
    Repertoire {
        title: "Test Movie".to_string(),
        genres: "Thriller".to_string(),
        play_length: "120 min".to_string(),
        original_language: "EN".to_string(),
        play_details: vec![MoviePlayDetails {
            format: "2D".to_string(),
            play_language: "NAP: PL".to_string(),
            play_times,
        }],
        lookup_metadata: MovieLookupMetadata::empty(),
    }
}

#[test]
fn render_play_time_wraps_http_links_with_osc8_sequences() {
    let rendered = render_play_time(&MoviePlayTime {
        value: "10:00".to_string(),
        url: Some("https://www.cinema-city.pl/filmy/test-movie/123".to_string()),
    });

    assert_eq!(
        rendered,
        "\u{1b}]8;;https://www.cinema-city.pl/filmy/test-movie/123\u{1b}\\10:00\u{1b}]8;;\u{1b}\\"
    );
}

#[test]
fn render_play_time_falls_back_to_plain_text_for_unsafe_links() {
    let rendered = render_play_time(&MoviePlayTime {
        value: "10:00".to_string(),
        url: Some("javascript:alert(1)".to_string()),
    });

    assert_eq!(rendered, "10:00");
}

#[test]
fn render_repertoire_table_preserves_well_formed_hyperlinks_when_wrapping() {
    let metadata = RepertoireCliTableMetadata {
        chain_display_name: "Cinema City".to_string(),
        repertoire_date: "2026-04-01".to_string(),
        cinema_venue_name: "Wroclaw - Wroclavia".to_string(),
    };
    let mut entry = movie(vec![MoviePlayTime {
        value: "10:00".to_string(),
        url: Some(format!("https://www.cinema-city.pl/filmy/test-movie/123/{}", "a".repeat(200))),
    }]);
    entry.play_details[0].format = "2D Projekcja Laserowa BARCO".to_string();
    entry.play_details[0].play_language = "FILM Z NAPISAMI: PL".to_string();
    let repertoire = vec![entry];

    let rendered = render_repertoire_table_with_width(&repertoire, &metadata, &Vec::new(), Some(80));
    let expected_hyperlink = format!(
        "\u{1b}]8;;https://www.cinema-city.pl/filmy/test-movie/123/{}\u{1b}\\10:00\u{1b}]8;;\u{1b}\\",
        "a".repeat(200)
    );

    assert!(rendered.contains(&expected_hyperlink));

    let well_formed_hyperlink_re = regex::Regex::new(r"\x1b]8;;[^\x1b\r\n]+\x1b\\[^\x1b\r\n]+\x1b]8;;\x1b\\")
        .expect("well-formed OSC-8 regex must compile");
    let stripped = well_formed_hyperlink_re.replace_all(&rendered, "");

    assert!(!stripped.contains("]8;;"));
    assert!(!stripped.contains(HYPERLINK_MARKER_PREFIX));
    assert!(!stripped.contains(HYPERLINK_MARKER_ZERO));
    assert!(!stripped.contains(HYPERLINK_MARKER_ONE));
    assert!(!stripped.contains(HYPERLINK_MARKER_SUFFIX));
}

#[test]
fn cinema_venue_input_parser_parses_user_input_correctly() {
    assert_eq!(cinema_venue_input_parser(" Manufaktura "), "%Manufaktura%");
    assert_eq!(cinema_venue_input_parser("warszawa janki"), "%warszawa%janki%");
    assert_eq!(cinema_venue_input_parser("wroclawia."), "%wroclawia%");
}

#[test]
fn date_input_parser_accepts_supported_values() {
    assert_eq!(date_input_parser("2021-12-31").unwrap(), "2021-12-31");
    assert!(date_input_parser("today").is_ok());
    assert!(date_input_parser("jutro").is_ok());
}

#[test]
fn date_input_parser_rejects_unsupported_values() {
    assert_eq!(
        date_input_parser("foo").unwrap_err().message(),
        "Data: foo nie jest we wspieranym formacie: YYYY-MM-DD | dzis | jutro | itp..."
    );
}

#[test]
fn date_input_parser_rejects_impossible_dates() {
    assert!(date_input_parser("2021-02-30").is_err());
}

#[test]
fn render_venues_table_prints_empty_state_for_missing_venues() {
    assert_eq!(render_venues_table(&[], "Cinema City"), "Brak kin tej sieci w bazie danych.");
}

#[test]
fn render_venues_table_renders_table_for_found_venues() {
    let rendered_output = render_venues_table(
        &[
            CinemaVenue {
                chain_id: "cinema-city".to_string(),
                venue_name: "Lodz - Manufaktura".to_string(),
                venue_id: "1080".to_string(),
            },
            CinemaVenue {
                chain_id: "cinema-city".to_string(),
                venue_name: "Wroclaw - Wroclavia".to_string(),
                venue_id: "1097".to_string(),
            },
        ],
        "Cinema City",
    );

    assert!(rendered_output.contains("Znalezione lokale sieci Cinema City"));
    assert!(rendered_output.contains("venue_name"));
    assert!(rendered_output.contains("Wroclaw - Wroclavia"));
}

#[test]
fn render_repertoire_table_prints_empty_state_for_missing_movies() {
    assert_eq!(render_repertoire_table(&[], &metadata(), &Vec::new()), "Brak repertuaru do wyświetlenia.");
}

#[test]
fn render_repertoire_table_renders_ratings_when_available() {
    let repertoire = vec![movie(vec![
        MoviePlayTime { value: "10:00".to_string(), url: None },
        MoviePlayTime { value: "12:30".to_string(), url: None },
    ])];
    let ratings = vec![(
        "Test Movie".to_string(),
        TmdbMovieDetails { rating: "8.5/10\n(głosy: 2000)".to_string(), summary: "A tense mystery.".to_string() },
    )];

    let rendered_output = render_repertoire_table(&repertoire, &metadata(), &ratings);

    assert!(rendered_output.contains("Repertuar dla Cinema City (Wroclaw - Wroclavia)"));
    assert!(rendered_output.contains("Ocena z TMDB"));
    assert!(rendered_output.contains("8.5/10"));
    assert!(rendered_output.contains("A tense mystery."));
}

#[test]
fn render_repertoire_table_without_ratings_has_no_rating_column() {
    let repertoire = vec![movie(vec![MoviePlayTime { value: "10:00".to_string(), url: None }])];
    let rendered_output = render_repertoire_table_with_width(&repertoire, &metadata(), &Vec::new(), Some(120));
    assert!(rendered_output.contains("Test Movie"));
    assert!(!rendered_output.contains("Ocena z TMDB"));
}

#[test]
fn date_input_parser_accepts_day_first_dates() {
    assert_eq!(date_input_parser("31-12-2021").unwrap(), "2021-12-31");
    assert_eq!(date_input_parser(" 05.04.2026 ").unwrap(), "2026-04-05");
    assert!(date_input_parser("2021/12/31").is_err());
    assert!(date_input_parser("31.02.2021").is_err());
}

#[test]
fn date_input_parser_day_words_give_dates_that_read_back() {
    for word in ["dziś", "dzis", "today", "jutro", "tomorrow"] {
        let date = date_input_parser(word).unwrap();
        let bytes = date.as_bytes();
        let n = bytes.len();
        assert!(n >= 10);
        assert_eq!(bytes[n - 6], b'-');
        assert_eq!(bytes[n - 3], b'-');
        assert_eq!(date_input_parser(&date).unwrap(), date);
    }
}

#[test]
fn date_input_parser_gives_today_for_dzis_and_the_next_day_for_jutro() {
    let today = chrono::Local::now().date_naive();
    assert_eq!(date_input_parser("dziś").unwrap(), today.to_string());
    assert_eq!(date_input_parser("jutro").unwrap(), today.succ_opt().unwrap().to_string());
}

#[test]
fn keyword_date_keeps_today_and_steps_to_the_next_calendar_day() {
    assert_eq!(keyword_date(DateKeyword::Today, "2024-02-28"), Some("2024-02-28".to_string()));
    assert_eq!(keyword_date(DateKeyword::Tomorrow, "2024-02-28"), Some("2024-02-29".to_string()));
    assert_eq!(keyword_date(DateKeyword::Tomorrow, "2023-12-31"), Some("2024-01-01".to_string()));
    assert_eq!(keyword_date(DateKeyword::Tomorrow, "2023-02-31"), None);
}

#[test]
fn buffer_terminal_keeps_every_line_in_order() {
    let mut terminal = BufferTerminal::new();
    terminal.write_line("pierwsza");
    terminal.write_line("druga\n");
    terminal.write_line("");
    terminal.write_line("czwarta");
    assert_eq!(terminal.into_string(), "pierwsza\ndruga\n\nczwarta\n");
}
