pub mod cli;
pub mod paths;
pub mod script;
pub mod sort;
pub mod text;
pub mod ui;
pub mod usage;
