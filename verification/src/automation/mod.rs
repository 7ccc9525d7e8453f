pub mod watcher;

pub use watcher::{FolderWatcher, FolderWatcherConfig};
