pub mod catalog;
pub mod engine;
pub mod ranking;
pub mod score;
pub mod vector;
