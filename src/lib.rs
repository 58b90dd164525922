//! Decision logic for a desktop bridge to a local model-serving daemon:
//! progress scraping of model pulls, inventory matching, start-up
//! supervision and relay of streamed generation output.

pub mod text;
pub mod progress;
pub mod pull;
pub mod inventory;
pub mod supervisor;
pub mod stream;
