//! Remote ID drone detection: parsers for Bluetooth LE advertising data and
//! WiFi beacon frames, an OpenDroneID message decoder, and a per-drone tracker.

pub mod adapter;
pub mod bytes;
pub mod db;
pub mod email;
pub mod gps;
pub mod hci;
pub mod output;
pub mod pipeline;
pub mod remoteid;
pub mod text;
pub mod tracker;
pub mod web;
pub mod wifi;
