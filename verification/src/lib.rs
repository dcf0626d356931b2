//! A small entity-component-system (ECS) runtime backed by an in-memory
//! relational store.
//!
//! Entities and their components live as rows in typed tables of a
//! [`db::Database`]; each simulation system (movement, gravity, collision,
//! diagnostics, rendering) is a set-oriented pass over those tables, run once
//! per frame with the elapsed time `delta`.
//!
//! All component values are integers in a scale of the caller's choosing;
//! `delta` is an integer count of time units in the matching scale.

pub mod components;
pub mod db;
pub mod error;
pub mod game;
pub mod system;
pub mod systems;
