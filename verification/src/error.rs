//! The library's error type and the messages it renders.
use crate::text::{chars_of, decimal_seq, push_all, push_str, string_of, usize_to_decimal};
use vstd::prelude::*;

verus! {

/// Every failure the library reports.
#[derive(Debug, Clone, PartialEq, Eq)]
pub enum AppError {
    Message(String),
    VenueNotFound,
    AmbiguousVenueMatch { matches_count: usize },
    UnsupportedCinemaChain { invalid_chain: String, supported_chains: String },
    DefaultVenueNotConfigured { chain_display_name: String },
    ConfigurationNotFound,
    Configuration(String),
    ConfigurationAborted,
    TemplateRender { missing_variable: String },
    DatabaseConnection(String),
    BrowserUnavailable(String),
    Http(String),
}

pub type AppResult<T> = Result<T, AppError>;

/// The noun used for a number of ambiguous matches.
pub open spec fn ambiguous_noun_spec(matches_count: nat) -> Seq<char> {
    if matches_count < 5 {
        "pasujące wyniki"@
    } else {
        "pasujących wyników"@
    }
}

fn ambiguous_noun(matches_count: usize) -> (r: &'static str)
    ensures
        r@ == ambiguous_noun_spec(matches_count as nat),
{
    if matches_count < 5 {
        "pasujące wyniki"
    } else {
        "pasujących wyników"
    }
}

/// The user-facing text of each error.
pub open spec fn error_message(e: AppError) -> Seq<char> {
    match e {
        AppError::Message(m) => m@,
        AppError::VenueNotFound => "Nie znaleziono żadnego lokalu o podanej nazwie."@,
        AppError::AmbiguousVenueMatch { matches_count } => "Podana nazwa lokalu jest niejednoznaczna. Znaleziono "@
            + decimal_seq(matches_count as nat) + " "@ + ambiguous_noun_spec(matches_count as nat)
            + "."@,
        AppError::UnsupportedCinemaChain { invalid_chain, supported_chains } => "Nieobsługiwana sieć kin: "@
            + invalid_chain@ + ". Dostępne wartości: "@ + supported_chains@ + "."@,
        AppError::DefaultVenueNotConfigured { chain_display_name } => "Brak domyślnego lokalu skonfigurowanego dla sieci "@
            + chain_display_name@ + "."@,
        AppError::ConfigurationNotFound => "Nie znaleziono pliku konfiguracji: config.ini. Uruchom aplikację ponownie, aby przejść przez konfigurację początkową."@,
        AppError::Configuration(m) => m@,
        AppError::ConfigurationAborted => "Konfiguracja została przerwana przez użytkownika."@,
        AppError::TemplateRender { missing_variable } => "Nie udało się wypełnić templatki z adresem url. Brakująca zmienna: "@
            + missing_variable@ + "."@,
        AppError::DatabaseConnection(m) => m@,
        AppError::BrowserUnavailable(m) => m@,
        AppError::Http(m) => m@,
    }
}

/// The text of a database connection failure for the file at `path`.
pub open spec fn database_connection_message(path: Seq<char>) -> Seq<char> {
    "Nie udało się połączyć z bazą danych sqlite:///"@ + path + ". Spróbuj jeszcze raz."@
}

impl AppError {
    pub fn configuration(message: String) -> (r: Self)
        ensures
            r == AppError::Configuration(message),
    {
        AppError::Configuration(message)
    }

    pub fn database_connection(path: &str) -> (r: Self)
        ensures
            r matches AppError::DatabaseConnection(m) && m@ == database_connection_message(path@),
    {
        let mut v: Vec<char> = Vec::new();
        push_str(&mut v, "Nie udało się połączyć z bazą danych sqlite:///");
        push_str(&mut v, path);
        push_str(&mut v, ". Spróbuj jeszcze raz.");
        AppError::DatabaseConnection(string_of(v.as_slice()))
    }

    /// The user-facing text of the error.
    pub fn message(&self) -> (r: String)
        ensures
            r@ == error_message(*self),
    {
        match self {
            AppError::Message(m) => m.clone(),
            AppError::VenueNotFound => string_of(chars_of("Nie znaleziono żadnego lokalu o podanej nazwie.").as_slice()),
            AppError::AmbiguousVenueMatch { matches_count } => {
                let mut v: Vec<char> = Vec::new();
                push_str(&mut v, "Podana nazwa lokalu jest niejednoznaczna. Znaleziono ");
                let d = usize_to_decimal(*matches_count);
                push_all(&mut v, d.as_slice());
                push_str(&mut v, " ");
                push_str(&mut v, ambiguous_noun(*matches_count));
                push_str(&mut v, ".");
                string_of(v.as_slice())
            },
            AppError::UnsupportedCinemaChain { invalid_chain, supported_chains } => {
                let mut v: Vec<char> = Vec::new();
                push_str(&mut v, "Nieobsługiwana sieć kin: ");
                push_str(&mut v, invalid_chain.as_str());
                push_str(&mut v, ". Dostępne wartości: ");
                push_str(&mut v, supported_chains.as_str());
                push_str(&mut v, ".");
                string_of(v.as_slice())
            },
            AppError::DefaultVenueNotConfigured { chain_display_name } => {
                let mut v: Vec<char> = Vec::new();
                push_str(&mut v, "Brak domyślnego lokalu skonfigurowanego dla sieci ");
                push_str(&mut v, chain_display_name.as_str());
                push_str(&mut v, ".");
                string_of(v.as_slice())
            },
            AppError::ConfigurationNotFound => string_of(chars_of("Nie znaleziono pliku konfiguracji: config.ini. Uruchom aplikację ponownie, aby przejść przez konfigurację początkową.").as_slice()),
            AppError::Configuration(m) => m.clone(),
            AppError::ConfigurationAborted => string_of(chars_of("Konfiguracja została przerwana przez użytkownika.").as_slice()),
            AppError::TemplateRender { missing_variable } => {
                let mut v: Vec<char> = Vec::new();
                push_str(&mut v, "Nie udało się wypełnić templatki z adresem url. Brakująca zmienna: ");
                push_str(&mut v, missing_variable.as_str());
                push_str(&mut v, ".");
                string_of(v.as_slice())
            },
            AppError::DatabaseConnection(m) => m.clone(),
            AppError::BrowserUnavailable(m) => m.clone(),
            AppError::Http(m) => m.clone(),
        }
    }
}

} // verus!
