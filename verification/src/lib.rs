//! Rule-driven profile matching: policy resolution, weighted priority-list
//! scoring, and ranking of candidate profiles against a person's
//! preferences.

pub mod score;
pub mod text;
pub mod priority;
pub mod model;
pub mod db_models;
pub mod rules;
pub mod matcher;
pub mod rank;
pub mod excel;
