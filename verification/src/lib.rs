pub mod addresses;
pub mod bounds;
pub mod catalog;
pub mod compose;
pub mod coordinate;
pub mod decisions;
pub mod delivery;
pub mod envelope;
pub mod error;
pub mod foundations;
pub mod gallery;
pub mod gate;
pub mod history;
pub mod hosted;
pub mod json;
pub mod listing;
pub mod manifest;
pub mod merging;
pub mod operations;
pub mod percent;
pub mod planning;
pub mod query;
pub mod reading;
pub mod records;
pub mod repository;
pub mod response;
pub mod rewriting;
pub mod served;
pub mod skeleton;
pub mod text;
pub mod time;
pub mod urls;
pub mod withheld;
pub mod words;
