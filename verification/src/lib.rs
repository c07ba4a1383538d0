//! Reader for taiko rhythm-game charts: comment stripping, the line grammar of
//! headers and note tracks, chart assembly, the placement of notes in
//! measures and their times. Beside it, what the game keeps from frame to
//! frame: the keys, the loaded textures and the stack of states.

pub mod bytes;
pub mod model;
pub mod preprocess;
pub mod metadata;
pub mod track;
pub mod timing;
pub mod clock;
pub mod chart;
pub mod textures;
pub mod keyboard;
pub mod state;
