pub mod errors;
pub mod hash;
pub mod manager;
pub mod parse;
pub mod text;
