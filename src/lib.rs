pub mod tokens;
pub mod casefold;
pub mod directory;
pub mod laws;
