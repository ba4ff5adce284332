//! WiFi beacons carrying Remote ID, as captured in monitor mode.

pub mod frames;
