use quick_repertoire::common::{
    extract_json_array_assignment, extract_json_assignment, extract_query_param, locate_film_details, normalize_lookup_text, split_people_list, EmbeddedMoviePageDetails,
};
use quick_repertoire::domain::MoviePageFallbackDetails;

fn text_field(value: &serde_json::Value, name: &str) -> Option<String> {
    value.get(name).and_then(|field| field.as_str()).map(str::to_string)
}

#[test]
fn parse_movie_page_fallback_details_extracts_embedded_film_details() {
    let html = r#"
    <html>
      <body>
        <script>
          var filmDetails = {
            "originalName": "The Amateur",
            "releaseCountry": "USA",
            "cast": "Rami Malek, Rachel Brosnahan",
            "directors": "James Hawes",
            "synopsis": "A CIA cryptographer pursues revenge."
          };
        </script>
      </body>
    </html>
    "#;

    let json = locate_film_details(html).unwrap();
    let value: serde_json::Value = serde_json::from_str(&json).unwrap();
    let details = MoviePageFallbackDetails::from_embedded(EmbeddedMoviePageDetails {
        original_name: text_field(&value, "originalName"),
        release_country: text_field(&value, "releaseCountry"),
        cast: text_field(&value, "cast"),
        directors: text_field(&value, "directors"),
        synopsis: text_field(&value, "synopsis"),
    });

    assert_eq!(details.original_title.as_deref(), Some("The Amateur"));
    assert_eq!(details.country.as_deref(), Some("USA"));
    assert_eq!(details.cast, vec!["Rami Malek".to_string(), "Rachel Brosnahan".to_string()]);
    assert_eq!(details.directors, vec!["James Hawes".to_string()]);
    assert_eq!(details.synopsis.as_deref(), Some("A CIA cryptographer pursues revenge."));
}

#[test]
fn locate_film_details_reports_pages_without_details() {
    assert!(locate_film_details("<html></html>").is_err());
}

#[test]
fn people_lists_are_split_and_trimmed() {
    assert_eq!(split_people_list(Some(" A ; B,, C ")), vec!["A".to_string(), "B".to_string(), "C".to_string()]);
    assert!(split_people_list(None).is_empty());
}

#[test]
fn query_parameters_are_found_by_name() {
    assert_eq!(extract_query_param("https://x/?a=1&b=2#c=3", "b"), Some("2".to_string()));
    assert_eq!(extract_query_param("https://x/?a=", "a"), None);
}

#[test]
fn lookup_text_folds_polish_letters_and_punctuation() {
    assert_eq!(normalize_lookup_text("  Łódź - Helios! "), "lodz helios");
}

#[test]
fn normalize_lookup_text_gives_its_normal_form_back_unchanged() {
    let normalized = normalize_lookup_text("Science-Fiction  Łódź!");
    assert_eq!(normalized, "science fiction lodz");
    assert_eq!(normalize_lookup_text(&normalized), normalized);
    assert!(normalized
        .chars()
        .all(|c| c.is_ascii_lowercase() || c.is_ascii_digit() || c == ' '));
    assert!(!normalized.contains("  "));
}

#[test]
fn extract_json_assignment_with_a_quote_as_opening_character_finds_nothing() {
    assert_eq!(extract_json_assignment(r#"var title = "Diuna" ; "#, "title", '"', '"'), None);
    assert_eq!(extract_json_assignment(r#"var title = "Diuna";"#, "title", '"', ';'), None);
}

#[test]
fn extract_json_assignment_returns_none_when_brackets_never_balance() {
    assert_eq!(extract_json_array_assignment("var items = [1, [2, 3]", "items"), None);
    assert_eq!(
        extract_json_array_assignment(r#"var items = [1, "]", [2]] tail"#, "items"),
        Some(r#"[1, "]", [2]]"#.to_string())
    );
}
