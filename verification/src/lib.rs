pub mod cli;
pub mod config;
pub mod download;
pub mod executor;
pub mod kotlin;
pub mod settings;
pub mod task;
pub mod text;
pub mod util;
pub mod word_case;
