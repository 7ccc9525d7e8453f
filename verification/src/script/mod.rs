pub mod persona;
pub mod prompt;

pub use persona::CommentaryPersona;
pub use prompt::{CommentaryDraft, CommentaryGenerator, NEUROCLIP_COMMENTARY_SYSTEM_PROMPT};
