//! Watchlist data: the user's movies and series, their notes and ratings,
//! and the rules that keep two copies of that data consistent.

pub mod collection;
pub mod config;
pub mod credits;
pub mod decimal;
pub mod integrity;
pub mod limiter;
pub mod merge;
pub mod movies;
pub mod production;
pub mod score;
pub mod selection;
pub mod sequences;
pub mod series;
pub mod strings;
pub mod text;
pub mod themoviedb;
pub mod view;
