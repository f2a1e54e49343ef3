use quick_repertoire::config::{
    default_choice_index, map_prompt_error, parse_settings, render_settings, should_defer_bootstrap_to_command,
    should_skip_bootstrap, write_access_error, DefaultVenues, SelectionChoice, Settings, UserPreferences,
};
use quick_repertoire::domain::CinemaChainId;
use quick_repertoire::error::AppError;

fn settings() -> Settings {
    let mut default_venues = DefaultVenues::default();
    default_venues.set(CinemaChainId::CinemaCity, Some("Wroclaw - Wroclavia".to_string()));

    Settings {
        user_preferences: UserPreferences {
            default_chain: CinemaChainId::CinemaCity,
            default_day: "dziś".to_string(),
            tmdb_access_token: Some("1234".to_string()),
            default_venues,
        },
    }
}

fn args(values: &[&str]) -> Vec<String> {
    values.iter().map(|value| value.to_string()).collect()
}

#[test]
fn load_settings_roundtrips_config_ini() {
    let mut expected_settings = settings();
    expected_settings.user_preferences.tmdb_access_token = Some("1234".to_string());
    expected_settings.user_preferences.default_venues.set(CinemaChainId::Helios, Some("Łódź - Helios".to_string()));

    let written = render_settings(&expected_settings);
    let loaded_settings = parse_settings(&written).unwrap();

    assert_eq!(loaded_settings, expected_settings);
}

#[test]
fn load_settings_ignores_legacy_app_section_entries() {
    let content = "[app]\n\
db_file = C:/absolute/test.sqlite\n\
loguru_level = INFO\n\
\n\
[user_preferences]\n\
default_chain = cinema-city\n\
default_day = today\n\
tmdb_access_token =\n\
\n\
[default_venues]\n\
cinema_city = Wroclaw - Wroclavia\n\
\n\
[cinema_chains.cinema_city]\n\
repertoire_url = https://www.cinema-city.pl/#/buy-tickets-by-cinema?in-cinema={cinema_venue_id}&at={repertoire_date}\n\
venues_list_url = https://www.cinema-city.pl/#/buy-tickets-by-cinema\n";

    let loaded_settings = parse_settings(content).unwrap();
    assert_eq!(loaded_settings.user_preferences.default_chain, CinemaChainId::CinemaCity);
    assert_eq!(loaded_settings.user_preferences.default_day, "dziś");
    assert_eq!(loaded_settings.user_preferences.tmdb_access_token, None);
}

#[test]
fn load_settings_reads_default_venues_for_multiple_chains() {
    let content = "[user_preferences]\n\
default_chain = helios\n\
default_day = jutro\n\
tmdb_access_token = token\n\
\n\
[default_venues]\n\
cinema_city = Wroclaw - Wroclavia\n\
helios = Łódź - Helios\n\
";

    let loaded_settings = parse_settings(content).unwrap();

    assert_eq!(loaded_settings.user_preferences.default_chain, CinemaChainId::Helios);
    assert_eq!(loaded_settings.get_default_venue(CinemaChainId::CinemaCity), Some("Wroclaw - Wroclavia"));
    assert_eq!(loaded_settings.get_default_venue(CinemaChainId::Helios), Some("Łódź - Helios"));
    assert_eq!(loaded_settings.get_default_venue(CinemaChainId::Multikino), None);
}

#[test]
fn write_settings_omits_legacy_app_entries() {
    let config = render_settings(&settings());
    assert!(!config.contains("db_file ="));
    assert!(!config.contains("loguru_level ="));
    assert!(!config.contains("[cinema_chains.cinema_city]"));
    assert!(!config.contains("repertoire_url ="));
    assert!(!config.contains("venues_list_url ="));
}

#[test]
fn bootstrap_rules_match_help_and_configure_flows() {
    assert!(should_skip_bootstrap(&args(&["--help"]), &Vec::new()));
    assert!(should_skip_bootstrap(&args(&["venues", "list", "--help"]), &Vec::new()));
    assert!(should_defer_bootstrap_to_command(&args(&["configure"])));
    assert!(!should_defer_bootstrap_to_command(&args(&["repertoire"])));
}

#[test]
fn bootstrap_is_skipped_for_shell_completion_requests() {
    assert!(should_skip_bootstrap(&args(&["repertoire"]), &args(&["QUICKREP_COMPLETE"])));
    assert!(!should_skip_bootstrap(&args(&["repertoire"]), &args(&["HOME"])));
}

#[test]
fn load_settings_reports_recovery_command_with_binary_name() {
    let error = parse_settings("[app\n").unwrap_err();
    assert!(error.message().contains("`quickrep configure`"));
}

#[test]
fn load_settings_reports_unsupported_default_chain() {
    let error = parse_settings("[user_preferences]\ndefault_chain = kino\n").unwrap_err();
    assert!(matches!(error, AppError::UnsupportedCinemaChain { .. }));
}

#[test]
fn default_choice_falls_back_to_first_option() {
    let choices = vec![
        SelectionChoice { title: "A".to_string(), value: "a".to_string() },
        SelectionChoice { title: "B".to_string(), value: "b".to_string() },
    ];
    assert_eq!(default_choice_index(&choices, Some("b")), 1);
    assert_eq!(default_choice_index(&choices, Some("z")), 0);
    assert_eq!(default_choice_index(&choices, None), 0);
}

#[test]
fn interrupted_prompts_abort_the_configuration() {
    assert_eq!(map_prompt_error("read interrupted".to_string()), AppError::ConfigurationAborted);
    assert_eq!(map_prompt_error("boom".to_string()), AppError::Configuration("boom".to_string()));
}

#[test]
fn unwritable_runtime_directory_asks_for_higher_permissions() {
    let denied = write_access_error("/opt/quickrep", true, "access denied");
    let AppError::Configuration(message) = denied else { panic!("expected a configuration error") };
    assert!(message.contains("Brak uprawnień do zapisu w katalogu aplikacji"));
    assert!(message.contains("Uruchom aplikację z podwyższonymi uprawnieniami"));
    assert!(message.contains("/opt/quickrep"));
    assert_eq!(
        write_access_error("/opt/quickrep", false, "disk full"),
        AppError::Configuration("Nie udało się zapisać w katalogu aplikacji: /opt/quickrep: disk full".to_string())
    );
}
