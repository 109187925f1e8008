//! Interactive filesystem-path prompt.
//!
//! The crate models an interactive "explorer" prompt: a caller configures a
//! question with an `Explorer`, hands it a terminal backend and a filesystem
//! capability, and receives a validated absolute path back.  The navigation
//! engine, the listing pipeline (filtering and ordering of directory
//! entries), the validator chain and the cursor logic are all verified;
//! terminal drivers and the real filesystem live outside the library behind
//! the `Backend` and `FileSystem` traits.

pub mod backend;
pub mod entry;
pub mod filesystem;
pub mod listing;
pub mod order;
pub mod explorer;
pub mod path;
pub mod render;
pub mod validator;
