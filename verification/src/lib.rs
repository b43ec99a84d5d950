//! Field of view, lighting and remembered sight for a tile-grid roguelike.
//!
//! The crate answers three questions for a rectangular grid of cells, each
//! with an opacity between 0 (clear) and 255 (solid): which cells an observer
//! sees, what colour the point lights of the map throw on each cell, and which
//! cells the observer remembers without seeing them now.
//!
//! Sight is in [`shadowcast`], light in [`lighting`] and memory in
//! [`visibility`]. Around them stand the map with its entities ([`world`],
//! read from text by [`terrain`]), the game that moves the player over it
//! ([`game`]) and the choice of what to draw on each cell ([`render`]).

pub mod colour;
pub mod components;
pub mod coord;
pub mod entities;
pub mod game;
pub mod grid;
pub mod lighting;
pub mod render;
pub mod scene;
pub mod shadowcast;
pub mod spatial;
pub mod terrain;
pub mod visibility;
pub mod world;
