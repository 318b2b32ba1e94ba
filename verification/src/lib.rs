//! Client logic for the radiko live radio service: reading the station
//! list and stream descriptions, the authorization handshake, playlist
//! resolution, and the player's state.
pub mod record;
pub mod xml;
pub mod station_list;
pub mod stream_urls;
pub mod stations;
pub mod decimal;
pub mod http;
pub mod area;
pub mod auth;
pub mod playlist;
pub mod stream;
pub mod player;
pub mod server;
