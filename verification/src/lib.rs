pub mod browser;
pub mod cinema_city;
pub mod cinema_city_page;
pub mod commands;
pub mod common;
pub mod config;
pub mod domain;
pub mod error;
pub mod helios;
pub mod logging;
pub mod lookup;
pub mod matching;
pub mod multikino;
pub mod ordering;
pub mod output;
pub mod patterns;
pub mod quickbook;
pub mod registry;
pub mod retry;
pub mod scrape;
pub mod settings_laws;
pub mod showings;
pub mod table;
pub mod text;
pub mod tmdb;
