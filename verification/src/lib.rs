//! A Subsonic-compatible music server library: request parameters and
//! authentication decisions, response shapes, lyrics parsing, byte ranges,
//! file naming rules and library scan bookkeeping.
pub mod annotation;
pub mod auth;
pub mod catalog;
pub mod browsing;
pub mod crypto;
pub mod download;
pub mod encoding;
pub mod error;
pub mod genres;
pub mod lyrics;
pub mod media;
pub mod models;
pub mod number;
pub mod order;
pub mod playlist;
pub mod response;
pub mod scanner;
pub mod text;
