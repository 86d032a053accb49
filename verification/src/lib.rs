pub mod falcon;
pub mod text;
pub mod ui;
