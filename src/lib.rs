//! Journey simulation core for a wagon-trail game: inventory and capacity
//! accounting, party health and disease, and calendar advancement.
pub mod calendar;
pub mod formatting;
pub mod inventory;
pub mod journey;
pub mod party;
pub mod scene;
