//! Discovery and parsing of runnable scripts, tasks and targets.
pub mod discovery;
pub mod annotations;
pub mod utils;
pub mod parser;
pub mod items;
pub mod error;
pub mod just_parser;
pub mod makefile_parser;
pub mod mage_parser;
pub mod task_parser;
pub mod terraform_parser;
pub mod gradle_parser;
pub mod bazel_parser;
pub mod github_actions_parser;
pub mod npm_parser;
pub mod devbox_parser;
pub mod cargo_parser;
pub mod nx_parser;
pub mod executor;
pub mod catalog;
pub mod tools;
