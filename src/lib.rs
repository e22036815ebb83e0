//! A glide-typing engine: pointer traces over an on-screen keyboard are
//! smoothed for display, turned into weighted key candidates, and matched
//! against a prefix-trie dictionary.
//!
//! - `geometry`: integer points and rectangles, the Gaussian falloff and
//!   turning angles.
//! - `dictionary`: the word trie and its incremental search cursor.
//! - `trace`: the distance-gated, smoothed pointer trace and its fading
//!   history.
//! - `candidate`: key candidates, their weights, and the search they drive.
//! - `beam`: best-first ranking of whole words.
//! - `glide`: the boundary that feeds one pointer stream to both consumers.
//! - `input`: the tap, long-press, gesture and drag state machine.
//! - `window`: docking, window dragging and view selection.
//! - `svg`, `components`: icon paths and fills, launcher entries.

pub mod geometry;
pub mod dictionary;
pub mod trace;
pub mod candidate;
pub mod beam;
pub mod glide;
pub mod input;
pub mod window;
pub mod svg;
pub mod components;
