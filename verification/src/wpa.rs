pub mod parser;
pub mod requests;
