pub mod config;
pub mod diff;
pub mod gate;
pub mod generate;
pub mod github;
pub mod merge;
pub mod merge_laws;
pub mod order;
pub mod plan;
pub mod protection;
pub mod reconcile;
pub mod report;
pub mod resolve;
pub mod sets;
pub mod settings;
pub mod staging;
pub mod survey;
pub mod templates;
pub mod text;
