//! Completion engine for a structured command shell: given a partially typed
//! line and a cursor, it finds the token under the cursor, picks a completion
//! strategy from the token's shape, and returns the replacement texts with the
//! byte range of the line that each would replace.
//!
//! The engine never reads the file system itself: it says which directories
//! it wants listed and makes the candidates from the listings it is handed.
//! The modules `listing` and `length` hold, in the same way, the decisions of
//! the commands `ls` and `length`.

pub mod candidate;
pub mod completer;
pub mod cursor;
pub mod engine;
pub mod executables;
pub mod length;
pub mod listing;
pub mod matcher;
pub mod order;
pub mod paths;
pub mod provider;
pub mod text;
pub mod variables;
