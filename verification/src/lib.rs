//! Verified core of the Trackmania tournament manager: the decisions that the manager takes
//! on the competition graph (nodes, connections and how finished nodes move the graph on),
//! matches and their leaderboards, registrations, schedules, projects, users, and the raw
//! servers that log in, are lent to competitions and are provisioned to matches; and a
//! parser for GameBox (`.Gbx`) replay files.
//!
//! The functions take what the store holds as plain values and hand back the rows to store
//! or the error of a refused request.

pub mod action;
pub mod bridge;
pub mod competition;
pub mod configurator;
pub mod connection;
pub mod connection_data;
pub mod destination;
pub mod env;
pub mod error;
pub mod gamebox;
pub mod gbx;
pub mod graph;
pub mod leaderboard;
pub mod maps;
pub mod match_state;
pub mod node;
pub mod occupation;
pub mod position;
pub mod project;
pub mod raw_server;
pub mod registration;
pub mod schedule;
pub mod tm_match;
pub mod tm_server;
pub mod token;
pub mod user;
