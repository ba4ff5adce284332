//! Bluetooth HCI: events from the controller, commands to it.

pub mod commands;
pub mod events;
pub mod socket;
