use quick_repertoire::cinema_city::{
    invalid_api_sites_list_error, quickbook_status_error, BookableMovieShowtimes, CinemaCity, CinemaCityApiSite,
    CinemaCityApiSiteAddress, CinemaCityCompositeBookingLink, CinemaCityFilmEvent, CinemaCityFilmEventFilm,
    CinemaCityFilmEventsBody, VenuesPage,
};
use quick_repertoire::domain::{CinemaVenue, MovieLookupMetadata, MoviePlayDetails, MoviePlayTime, Repertoire};
use quick_repertoire::error::AppError;
use quick_repertoire::scrape::normalized_text;

fn rendered_repertoire_html() -> String {
    r#"
    <div class="row qb-movie">
      <h3 class="qb-movie-name">65</h3>
      <div class="qb-movie-info-wrapper">
        <span aria-label="original-lang">EN</span>
      </div>
      <div class="qb-movie-info-column">
        <ul class="qb-screening-attributes">
          <li><span aria-label="Screening type">2D</span></li>
          <li><span aria-label="subAbbr">NAP</span></li>
          <li><span aria-label="subbed-lang">PL</span></li>
        </ul>
        <a class="btn btn-primary btn-lg">17:45</a>
        <a class="btn btn-primary btn-lg">19:50</a>
      </div>
    </div>
    <div class="row qb-movie">
      <h3 class="qb-movie-name">John Wick 4</h3>
      <div class="qb-movie-info-wrapper">
        <span>| Action | Thriller |</span>
        <span>169 min</span>
        <span aria-label="original-lang">EN</span>
      </div>
      <div class="qb-movie-info-column">
        <h4>Przedsprzedaż</h4>
        <ul class="qb-screening-attributes">
          <li><span aria-label="Screening type">4DX</span></li>
        </ul>
        <a class="btn btn-primary btn-lg">21:00</a>
      </div>
    </div>
    <div class="row qb-movie">
      <h3 class="qb-movie-name">Dungeons & Dragons</h3>
      <div class="qb-movie-info-wrapper">
        <span>| Fantasy, Adventure |</span>
        <span>134 min</span>
        <span aria-label="original-lang">EN</span>
      </div>
      <div class="qb-movie-info-column">
        <ul class="qb-screening-attributes">
          <li><span aria-label="Screening type">IMAX</span></li>
          <li><span aria-label="Screening type">3D</span></li>
          <li><span aria-label="noSubs">BEZ NAP</span></li>
        </ul>
        <a class="btn btn-primary btn-lg">20:15</a>
      </div>
    </div>
    "#
    .to_string()
}

fn rendered_repertoire_html_with_current_language_markup() -> String {
    r#"
    <h2 class="mr-sm">Repertuar Cinema City Wroclaw - Wroclavia</h2>
    <div class="row qb-movie">
      <a class="qb-movie-link">
        <h3 class="qb-movie-name">Oni cię zabiją</h3>
      </a>
      <div class="qb-movie-info-wrapper">
        <div class="pt-xs">
          <span class="mr-sm">Horror <span class="ml-xs">|</span></span>
          <span class="mr-xs">94 min</span>
        </div>
      </div>
      <div class="events col-xs-12">
        <div class="type-row">
          <div class="qb-movie-info-column">
            <ul class="qb-screening-attributes">
              <li><span aria-label="Screening type: 2D">2D</span></li>
              <li><span aria-label="Screening type: Projekcja Laserowa BARCO">Projekcja Laserowa BARCO</span></li>
            </ul>
            <a class="btn btn-primary btn-lg">21:40</a>
            <ul class="qb-movie-attributes">
              <li><span aria-label="original-lang-en">EN</span></li>
              <li><span aria-label="subAbbr">FILM Z NAPISAMI</span></li>
              <li><span aria-label="first-subbed-lang-pl">PL</span></li>
            </ul>
          </div>
        </div>
      </div>
    </div>
    "#
    .to_string()
}

fn rendered_repertoire_html_with_translated_movie_link() -> String {
    r#"
    <h2 class="mr-sm">Repertuar Cinema City Wroclaw - Wroclavia</h2>
    <div class="row qb-movie">
      <a class="qb-movie-link" href="https://www.cinema-city.pl/filmy/ostatnia-wieczerza/8072s2r#/buy-tickets-by-film?in-cinema=1097&at=2026-04-01&for-movie=8072s2r&view-mode=list">
        <h3 class="qb-movie-name">Ostatnia wieczerza</h3>
      </a>
      <div class="qb-movie-info-wrapper">
        <span>| Dramat |</span>
        <span>94 min</span>
        <span aria-label="original-lang">EN</span>
      </div>
      <div class="qb-movie-info-column">
        <ul class="qb-screening-attributes">
          <li><span aria-label="Screening type">2D</span></li>
          <li><span aria-label="subAbbr">FILM Z NAPISAMI</span></li>
          <li><span aria-label="subbed-lang">PL</span></li>
        </ul>
        <a class="btn btn-primary btn-lg" ng-click="buy()">17:30</a>
      </div>
    </div>
    "#
    .to_string()
}

fn rendered_repertoire_html_with_movie_link_fragment() -> String {
    r#"
    <h2 class="mr-sm">Repertuar Cinema City Wroclaw - Wroclavia</h2>
    <div class="row qb-movie">
      <a class="qb-movie-link" href="https://www.cinema-city.pl/filmy/projekt-hail-mary/7449s2r#/buy-tickets-by-film?in-cinema=1097&at=2026-04-01&for-movie=7449s2r&view-mode=list">
        <h3 class="qb-movie-name">Projekt Hail Mary</h3>
      </a>
      <div class="qb-movie-info-wrapper">
        <span>| Dramat, Sci-Fi, Thriller |</span>
        <span>156 min</span>
        <span aria-label="original-lang">EN</span>
      </div>
      <div class="qb-movie-info-column">
        <ul class="qb-screening-attributes">
          <li><span aria-label="Screening type">IMAX</span></li>
          <li><span aria-label="subAbbr">FILM Z NAPISAMI</span></li>
          <li><span aria-label="subbed-lang">PL</span></li>
        </ul>
        <a class="btn btn-primary btn-lg" ng-click="buy()">18:10</a>
      </div>
    </div>
    "#
    .to_string()
}

fn venue(id: &str, name: &str) -> CinemaVenue {
    CinemaVenue { chain_id: "cinema-city".to_string(), venue_id: id.to_string(), venue_name: name.to_string() }
}

#[test]
fn fetch_repertoire_parses_inline_html_fixture_and_skips_presales() {
    let (repertoire, _) = CinemaCity::parse_repertoire_page(&rendered_repertoire_html());

    assert_eq!(repertoire.len(), 2);
    assert_eq!(repertoire[0].title, "65");
    assert_eq!(repertoire[0].genres, "Brak danych");
    assert_eq!(repertoire[0].play_length, "Brak danych");
    assert_eq!(repertoire[0].original_language, "EN");
    assert_eq!(repertoire[0].play_details[0].format, "2D");
    assert_eq!(repertoire[0].play_details[0].play_language, "NAP: PL");
    assert_eq!(
        repertoire[0].play_details[0].play_times,
        vec![
            MoviePlayTime { value: "17:45".to_string(), url: None },
            MoviePlayTime { value: "19:50".to_string(), url: None },
        ]
    );
    assert_eq!(repertoire[1].title, "Dungeons & Dragons");
    assert_eq!(repertoire[1].genres, "Fantasy, Adventure");
    assert_eq!(repertoire[1].play_length, "134 min");
    assert_eq!(repertoire[1].original_language, "EN");
    assert_eq!(repertoire[1].play_details[0].format, "IMAX 3D");
    assert_eq!(repertoire[1].play_details[0].play_language, "BEZ NAP");
    assert_eq!(repertoire[1].lookup_metadata.runtime_minutes, Some(134));
    assert_eq!(repertoire[1].lookup_metadata.original_language_code.as_deref(), Some("EN"));
    assert_eq!(repertoire[1].lookup_metadata.genre_tags, vec!["fantasy".to_string(), "adventure".to_string()]);
    assert_eq!(
        repertoire[1].play_details[0].play_times,
        vec![MoviePlayTime { value: "20:15".to_string(), url: None }]
    );
}

#[test]
fn fetch_repertoire_upgrades_legacy_url_template_to_canonical_cinema_route() {
    let cinema = CinemaCity::new(
        "https://www.cinema-city.pl/#/buy-tickets-by-cinema?in-cinema={cinema_venue_id}&at={repertoire_date}".to_string(),
        "https://www.cinema-city.pl/#/buy-tickets-by-cinema".to_string(),
    );
    let url = cinema.build_repertoire_url(&venue("1097", "Wroclaw - Wroclavia"), "2026-03-31").unwrap();
    assert_eq!(
        url,
        "https://www.cinema-city.pl/kina/wroclavia/1097#/buy-tickets-by-cinema?in-cinema=1097&at=2026-03-31&view-mode=list"
    );
}

#[test]
fn repertoire_templates_are_filled_with_venue_values() {
    let cinema = CinemaCity::new(
        "https://www.cinema-city.pl/kina/{cinema_venue_slug}/{cinema_venue_id}#/buy-tickets-by-cinema?in-cinema={cinema_venue_id}&at={repertoire_date}&view-mode=list".to_string(),
        String::new(),
    );
    let url = cinema.build_repertoire_url(&venue("1080", "Łódź - Manufaktura"), "2026-04-01").unwrap();
    assert_eq!(
        url,
        "https://www.cinema-city.pl/kina/manufaktura/1080#/buy-tickets-by-cinema?in-cinema=1080&at=2026-04-01&view-mode=list"
    );
}

#[test]
fn template_with_unknown_placeholder_reports_it() {
    let error = CinemaCity::fill_string_template("https://x/{unknown}", &Vec::new()).unwrap_err();
    assert_eq!(error, AppError::TemplateRender { missing_variable: "unknown".to_string() });
    let values = vec![("a".to_string(), "1".to_string()), ("a".to_string(), "2".to_string())];
    assert_eq!(CinemaCity::fill_string_template("{a}-{a}", &values).unwrap(), "2-2");
}

#[test]
fn venue_slugs_follow_the_last_dash_part() {
    assert_eq!(CinemaCity::build_venue_slug("Wroclaw - Wroclavia"), "wroclavia");
    assert_eq!(CinemaCity::build_venue_slug("Bielsko-Biała - Sfera"), "sfera");
    assert_eq!(CinemaCity::build_venue_slug("Łódź Manufaktura!"), "lodz-manufaktura");
}

#[test]
fn fetch_repertoire_parses_current_language_markup_from_live_schedule_page() {
    let (repertoire, _) = CinemaCity::parse_repertoire_page(&rendered_repertoire_html_with_current_language_markup());

    assert_eq!(repertoire.len(), 1);
    assert_eq!(repertoire[0].title, "Oni cię zabiją");
    assert_eq!(repertoire[0].genres, "Horror");
    assert_eq!(repertoire[0].play_length, "94 min");
    assert_eq!(repertoire[0].original_language, "EN");
    assert_eq!(
        repertoire[0].play_details,
        vec![MoviePlayDetails {
            format: "2D Projekcja Laserowa BARCO".to_string(),
            play_language: "FILM Z NAPISAMI: PL".to_string(),
            play_times: vec![MoviePlayTime { value: "21:40".to_string(), url: None }],
        }]
    );
}

#[test]
fn fetch_repertoire_keeps_booking_links_and_canonicalizes_lookup_movie_urls() {
    let (repertoire, fallbacks) = CinemaCity::parse_repertoire_page(&rendered_repertoire_html_with_movie_link_fragment());

    assert_eq!(repertoire.len(), 1);
    assert_eq!(repertoire[0].lookup_metadata.chain_movie_id.as_deref(), Some("7449s2r"));
    assert_eq!(
        repertoire[0].lookup_metadata.movie_page_url.as_deref(),
        Some("https://www.cinema-city.pl/filmy/projekt-hail-mary/7449s2r")
    );
    assert_eq!(
        repertoire[0].play_details[0].play_times,
        vec![MoviePlayTime {
            value: "18:10".to_string(),
            url: Some(
                "https://www.cinema-city.pl/filmy/projekt-hail-mary/7449s2r#/buy-tickets-by-film?in-cinema=1097&at=2026-04-01&for-movie=7449s2r&view-mode=list"
                    .to_string(),
            ),
        }]
    );
    assert_eq!(fallbacks.len(), 1);
    assert_eq!(fallbacks[0].0, "Projekt Hail Mary");
}

fn film_events_body() -> CinemaCityFilmEventsBody {
    CinemaCityFilmEventsBody {
        films: vec![CinemaCityFilmEventFilm {
            id: "7945s2r".to_string(),
            name: "Oni cię zabiją".to_string(),
            link: Some("https://www.cinema-city.pl/filmy/oni-cie-zabija/7945s2r".to_string()),
            length: Some(94),
            release_year: Some("2026".to_string()),
            release_date: Some("2026-03-27".to_string()),
            attribute_ids: vec!["original-lang-en".to_string(), "category-horror".to_string()],
        }],
        events: vec![
            CinemaCityFilmEvent {
                film_id: "7945s2r".to_string(),
                event_date_time: "2026-03-31T21:40:00".to_string(),
                booking_link: Some("https://tickets.cinema-city.pl/api/order/1350898?lang=pl".to_string()),
                sold_out: false,
                composite_booking_link: Some(CinemaCityCompositeBookingLink { block_online_sales: false }),
            },
            CinemaCityFilmEvent {
                film_id: "7945s2r".to_string(),
                event_date_time: "2026-03-31T23:10:00".to_string(),
                booking_link: Some("https://tickets.cinema-city.pl/api/order/1".to_string()),
                sold_out: true,
                composite_booking_link: None,
            },
        ],
    }
}

#[test]
fn fetch_repertoire_adds_movie_page_links_for_bookable_showtimes() {
    let (repertoire, fallbacks) = CinemaCity::parse_repertoire_page(&rendered_repertoire_html_with_current_language_markup());
    let repertoire = CinemaCity::finish_repertoire(
        repertoire,
        &fallbacks,
        Ok(film_events_body()),
        Err(AppError::Http("no second language".to_string())),
    );
    assert_eq!(
        repertoire[0].play_details[0].play_times,
        vec![MoviePlayTime {
            value: "21:40".to_string(),
            url: Some("https://www.cinema-city.pl/filmy/oni-cie-zabija/7945s2r".to_string()),
        }]
    );
    assert_eq!(repertoire[0].lookup_metadata.chain_movie_id.as_deref(), Some("7945s2r"));
    assert_eq!(
        repertoire[0].lookup_metadata.movie_page_url.as_deref(),
        Some("https://www.cinema-city.pl/filmy/oni-cie-zabija/7945s2r")
    );
    assert_eq!(repertoire[0].lookup_metadata.runtime_minutes, Some(94));
    assert_eq!(repertoire[0].lookup_metadata.original_language_code.as_deref(), Some("EN"));
    assert_eq!(repertoire[0].lookup_metadata.production_year, Some(2026));
    assert_eq!(repertoire[0].lookup_metadata.polish_premiere_date.as_deref(), Some("2026-03-27"));
    assert_eq!(repertoire[0].lookup_metadata.genre_tags, vec!["horror".to_string()]);
}

fn film(id: &str, name: &str, events: Vec<CinemaCityFilmEvent>) -> CinemaCityFilmEventsBody {
    CinemaCityFilmEventsBody {
        films: vec![CinemaCityFilmEventFilm {
            id: id.to_string(),
            name: name.to_string(),
            link: Some("https://www.cinema-city.pl/filmy/ostatnia-wieczerza/8072s2r".to_string()),
            length: Some(94),
            release_year: Some("2025".to_string()),
            release_date: Some("2026-03-20T00:00:00".to_string()),
            attribute_ids: vec!["original-lang-en".to_string(), "drama".to_string()],
        }],
        events,
    }
}

#[test]
fn fetch_repertoire_merges_alternate_titles_from_secondary_quickbook_language() {
    let cinema = CinemaCity::new(
        "https://www.cinema-city.pl/kina/{cinema_venue_slug}/{cinema_venue_id}#/buy-tickets-by-cinema?in-cinema={cinema_venue_id}&at={repertoire_date}&view-mode=list".to_string(),
        "https://www.cinema-city.pl/#/buy-tickets-by-cinema".to_string(),
    )
    .with_quickbook_api_base_url("https://quickbook.test/pl/data-api-service".to_string());
    let venue_data = CinemaVenue {
        chain_id: "cinema-city".to_string(),
        venue_id: "1097".to_string(),
        venue_name: "Wroclaw - Wroclavia".to_string(),
    };
    let html = rendered_repertoire_html_with_translated_movie_link();
    assert_eq!(
        cinema.quickbook_request_url(&html, &venue_data, "2026-04-01").as_deref(),
        Some("https://quickbook.test/pl/data-api-service/v1/quickbook/10103/film-events/in-cinema/1097/at-date/2026-04-01?attr=&lang=pl_PL")
    );
    assert_eq!(
        cinema.secondary_quickbook_request_url(&html, &venue_data, "2026-04-01").as_deref(),
        Some("https://quickbook.test/pl/data-api-service/v1/quickbook/10103/film-events/in-cinema/1097/at-date/2026-04-01?attr=&lang=en_GB")
    );
    let primary = film(
        "8072s2r",
        "Ostatnia wieczerza",
        vec![CinemaCityFilmEvent {
            film_id: "8072s2r".to_string(),
            event_date_time: "2026-04-01T17:30:00".to_string(),
            booking_link: Some("https://tickets.cinema-city.pl/api/order/123?lang=pl".to_string()),
            sold_out: false,
            composite_booking_link: Some(CinemaCityCompositeBookingLink { block_online_sales: false }),
        }],
    );
    let secondary = film("8072s2r", "The Last Supper", Vec::new());
    let (repertoire, fallbacks) = CinemaCity::parse_repertoire_page(&html);
    let repertoire = CinemaCity::finish_repertoire(repertoire, &fallbacks, Ok(primary), Ok(secondary));
    assert_eq!(repertoire[0].lookup_metadata.alternate_titles, vec!["The Last Supper".to_string()]);
    assert_eq!(repertoire[0].lookup_metadata.production_year, Some(2025));
    assert_eq!(repertoire[0].lookup_metadata.polish_premiere_date.as_deref(), Some("2026-03-20"));
}

#[test]
fn failed_quickbook_lookup_leaves_the_repertoire_unchanged() {
    let (repertoire, fallbacks) = CinemaCity::parse_repertoire_page(&rendered_repertoire_html_with_current_language_markup());
    let before = repertoire.clone();
    let after = CinemaCity::finish_repertoire(
        repertoire,
        &fallbacks,
        Err(AppError::Http("boom".to_string())),
        Ok(film_events_body()),
    );
    assert_eq!(after, before);
}

#[test]
fn bookable_showtimes_skip_sold_out_events() {
    let bookable = CinemaCity::bookable_showtimes(&film_events_body());
    assert_eq!(
        bookable,
        vec![BookableMovieShowtimes {
            title: "Oni cię zabiją".to_string(),
            movie_page_url: Some("https://www.cinema-city.pl/filmy/oni-cie-zabija/7945s2r".to_string()),
            showtimes: vec!["21:40".to_string()],
        }]
    );
}

#[test]
fn bookable_links_fall_back_to_the_repertoire_page_link() {
    let mut repertoire = vec![Repertoire {
        title: "Film".to_string(),
        genres: "Brak danych".to_string(),
        play_length: "Brak danych".to_string(),
        original_language: "Brak danych".to_string(),
        play_details: vec![MoviePlayDetails {
            format: "2D".to_string(),
            play_language: "Brak danych".to_string(),
            play_times: vec![
                MoviePlayTime { value: "10:00".to_string(), url: Some("https://old".to_string()) },
                MoviePlayTime { value: "12:00".to_string(), url: None },
            ],
        }],
        lookup_metadata: MovieLookupMetadata::empty(),
    }];
    let bookable = vec![BookableMovieShowtimes {
        title: "Film".to_string(),
        movie_page_url: None,
        showtimes: vec!["12:00".to_string()],
    }];
    let fallbacks = vec![("Film".to_string(), "https://www.cinema-city.pl/filmy/film/1".to_string())];
    CinemaCity::apply_bookable_movie_page_links(&mut repertoire, &bookable, &fallbacks);
    assert_eq!(
        repertoire[0].play_details[0].play_times,
        vec![
            MoviePlayTime { value: "10:00".to_string(), url: None },
            MoviePlayTime { value: "12:00".to_string(), url: Some("https://www.cinema-city.pl/filmy/film/1".to_string()) },
        ]
    );
}

#[test]
fn fetch_venues_filters_out_invalid_venues() {
    let html = r#"
        <select>
          <option value="">Wybierz kino</option>
          <option value="1080" data-tokens="Lodz - Manufaktura">Lodz - Manufaktura</option>
          <option value="1097" data-tokens="Wroclaw - Wroclavia">Wroclaw - Wroclavia</option>
          <option value="invalid" data-tokens="Ignored">Ignored</option>
          <option value="9999" data-tokens="null">Ignored</option>
        </select>
        "#;
    let venues = match CinemaCity::parse_venues_page(html) {
        VenuesPage::Legacy(venues) => venues,
        VenuesPage::ApiSitesList(_) => panic!("the legacy markup lists venues"),
    };
    assert_eq!(
        venues.into_iter().map(|venue| (venue.chain_id, venue.venue_name, venue.venue_id)).collect::<Vec<_>>(),
        vec![
            ("cinema-city".to_string(), "Lodz - Manufaktura".to_string(), "1080".to_string()),
            ("cinema-city".to_string(), "Wroclaw - Wroclavia".to_string(), "1097".to_string())
        ]
    );
}

fn site(code: &str, name: &str, city: &str) -> CinemaCityApiSite {
    CinemaCityApiSite {
        external_code: code.to_string(),
        name: name.to_string(),
        address: Some(CinemaCityApiSiteAddress { city: Some(city.to_string()) }),
    }
}

#[test]
fn fetch_venues_parses_embedded_api_sites_list_markup() {
    let html = r#"
        <html><body><script>
          var tenantId = "10103",
              apiSitesList = [{"externalCode":"1080","name":"Łódź Manufaktura","address":{"city":"Łódź"}}],
              pluginLocale = "pl-pl";
        </script></body></html>
        "#;
    match CinemaCity::parse_venues_page(html) {
        VenuesPage::ApiSitesList(Some(json)) => assert!(json.starts_with('[') && json.ends_with(']')),
        other => panic!("unexpected page reading: {other:?}"),
    }
    let venues = quick_repertoire::cinema_city::venues_from_api_sites(vec![
        site("1080", "Łódź Manufaktura", "Łódź"),
        site("1097", "Wrocław - Wroclavia", "Wrocław"),
        site("1074", "Warszawa -  Arkadia", "Warszawa"),
        site("invalid", "Ignored", "Warszawa"),
        site("9999", "", "Warszawa"),
    ]);
    assert_eq!(
        venues.into_iter().map(|venue| (venue.chain_id, venue.venue_name, venue.venue_id)).collect::<Vec<_>>(),
        vec![
            ("cinema-city".to_string(), "Lodz - Manufaktura".to_string(), "1080".to_string()),
            ("cinema-city".to_string(), "Wroclaw - Wroclavia".to_string(), "1097".to_string()),
            ("cinema-city".to_string(), "Warszawa - Arkadia".to_string(), "1074".to_string())
        ]
    );
}

#[test]
fn fetch_venues_reports_invalid_embedded_api_sites_list_json() {
    let error = invalid_api_sites_list_error("expected value");
    assert!(matches!(
        error,
        AppError::BrowserUnavailable(message) if message.contains("Nie udało się odczytać listy lokali Cinema City")
    ));
}

#[test]
fn quickbook_requests_use_the_page_tenant() {
    let cinema = CinemaCity::new(String::new(), String::new()).with_quickbook_api_base_url("https://q/api/".to_string());
    let url = cinema.quickbook_request_url("var tenantId = \"42\";", &venue("1097", "X"), "2026-03-31");
    assert_eq!(url.as_deref(), Some("https://q/api/v1/quickbook/42/film-events/in-cinema/1097/at-date/2026-03-31?attr=&lang=pl_PL"));
    let url = cinema.quickbook_request_url("<html></html>", &venue("1097", "X"), "2026-03-31");
    assert_eq!(url.as_deref(), Some("https://q/api/v1/quickbook/10103/film-events/in-cinema/1097/at-date/2026-03-31?attr=&lang=pl_PL"));
    let disabled = CinemaCity::new(String::new(), String::new()).with_quickbook_api_base_url("  ".to_string());
    assert_eq!(disabled.quickbook_request_url("", &venue("1", "X"), "d"), None);
}

#[test]
fn quickbook_statuses_are_classified() {
    assert!(quickbook_status_error(200).is_none());
    assert_eq!(
        quickbook_status_error(503),
        Some(AppError::Http("API Cinema City zwróciło błąd podczas pobierania danych o rezerwacjach: status 503 Service Unavailable".to_string()))
    );
}

#[test]
fn cinema_city_links_are_made_absolute() {
    assert_eq!(CinemaCity::canonicalize_cinema_city_url(" /filmy/x "), Some("https://www.cinema-city.pl/filmy/x".to_string()));
    assert_eq!(CinemaCity::canonicalize_cinema_city_url("//cdn/x"), Some("https://cdn/x".to_string()));
    assert_eq!(CinemaCity::canonicalize_cinema_city_url("filmy/x"), None);
    assert_eq!(CinemaCity::extract_showtime_value("2026-03-31T21:40:00"), Some("21:40".to_string()));
    assert_eq!(CinemaCity::extract_showtime_value("2026"), None);
}

/// Renders through `pages` the way the program retries renders: each failed render is
/// classified and the policy decides; returns the page and the number of renders.
fn render_with_retry(
    pages: Vec<Result<String, AppError>>,
    policy: quick_repertoire::retry::RetryPolicy,
) -> (Result<String, AppError>, usize) {
    let mut pages = pages.into_iter();
    let mut attempt = 1;
    loop {
        match pages.next().expect("render response must be configured") {
            Ok(html) => return (Ok(html), attempt),
            Err(error) => {
                match policy.after_failure(attempt, quick_repertoire::browser::classify_render_error(error)) {
                    quick_repertoire::retry::RetryStep::Stop(error) => return (Err(error), attempt),
                    quick_repertoire::retry::RetryStep::WaitThenRetry(_) => {}
                }
            }
        }
        attempt += 1;
    }
}

#[test]
fn fetch_repertoire_retries_transient_browser_failures() {
    let (html, renders) = render_with_retry(
        vec![
            Err(AppError::BrowserUnavailable("temporary page navigation failure".to_string())),
            Ok(rendered_repertoire_html()),
        ],
        quick_repertoire::retry::RetryPolicy::new(2, 0, 0),
    );
    let (repertoire, _) = CinemaCity::parse_repertoire_page(&html.unwrap());
    assert_eq!(repertoire.len(), 2);
    assert_eq!(renders, 2);
}

#[test]
fn fetch_venues_retries_transient_browser_failures() {
    let (html, renders) = render_with_retry(
        vec![
            Err(AppError::BrowserUnavailable("temporary venue page timeout".to_string())),
            Ok(r#"
            <select>
              <option value="1080" data-tokens="Lodz - Manufaktura">Lodz - Manufaktura</option>
            </select>
            "#
            .to_string()),
        ],
        quick_repertoire::retry::RetryPolicy::new(2, 0, 0),
    );
    let VenuesPage::Legacy(venues) = CinemaCity::parse_venues_page(&html.unwrap()) else {
        panic!("the older markup should be read");
    };
    assert_eq!(venues.len(), 1);
    assert_eq!(venues[0].venue_name, "Lodz - Manufaktura");
    assert_eq!(renders, 2);
}

#[test]
fn normalize_venue_label_folds_trims_and_collapses_whitespace() {
    assert_eq!(CinemaCity::normalize_venue_label("  Łódź \t  Manufaktura\u{a0}\u{a0}Kino  "), "Lodz Manufaktura Kino");
    assert_eq!(
        normalized_text("\n  Diuna:\u{2003}Część   druga \n"),
        "Diuna: Część druga"
    );
}
