//! A Spotify client's library: what plays next, how replies become tracks, and the rules the
//! interface follows.

pub mod models;
pub mod text;
pub mod queue;
pub mod format;
pub mod direct;
pub mod wire;
pub mod engine;
pub mod playback;
pub mod mpris;
pub mod now_playing;
pub mod router;
pub mod keys;
pub mod library;
pub mod screens;
pub mod reading;
pub mod api;
pub mod cache;
pub mod images;
pub mod auth;
pub mod session;
pub mod appearance;
