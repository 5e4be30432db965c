//! Meal-planning core: calendar-day meal slots, cheat markers, and
//! weighted random recipe assignment biased toward rarely used recipes.

pub mod catalog;
pub mod date;
pub mod day_store;
pub mod domain;
pub mod engine;
pub mod html;
pub mod laws;
pub mod selector;
pub mod text;
