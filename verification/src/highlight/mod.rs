pub mod fusion;
pub mod sound_events;
pub mod transnet;

pub use fusion::{select_highlights, Candidate};
pub use sound_events::SoundEventType;
pub use transnet::{ShotTransition, TransNetSnapper};
