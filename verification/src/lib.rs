pub mod automation;
pub mod cli;
pub mod commands;
pub mod db;
pub mod ffmpeg;
pub mod highlight;
pub mod platform;
pub mod scanner;
pub mod script;
pub mod text;
pub mod tts;
