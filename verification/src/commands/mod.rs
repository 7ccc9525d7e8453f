pub mod clip;
pub mod scanner;
pub mod updater;
