//! Turns the button events of a lighting hub's line protocol into gestures
//! (single, double and long presses) and decides which lighting changes each
//! gesture makes, with every decision stated as a contract and proved.
pub mod remote_config;
pub mod message;
pub mod dispatcher;
pub mod gesture;
pub mod topology;
pub mod hue_model;
pub mod room_state;
pub mod connection;
pub mod resource;
