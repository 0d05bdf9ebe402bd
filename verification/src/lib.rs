pub mod client;
pub mod cursor;
pub mod error;
pub mod expr;
pub mod grammar;
pub mod index;
pub mod laws;
pub mod parser;
pub mod state;
pub mod token;
pub mod tokeniser;
