//! The verified core of Shielded Observer, a desktop application that collects the observations of
//! weather stations, keeps them in a database and draws them.
//!
//! The library decides and computes; the application around it talks to the network, the database,
//! the file system and the screen. Real numbers are values of the application's own types here, and
//! their arithmetic comes in as functions.
pub mod catch_up;
pub mod clock;
pub mod collect;
pub mod coverage;
pub mod export;
pub mod failure;
pub mod graph;
pub mod history;
pub mod json;
pub mod location;
pub mod record;
pub mod search;
pub mod series;
pub mod service;
pub mod session;
pub mod store;
pub mod tables;
pub mod task;
pub mod text;
pub mod theme;
pub mod wind;
