pub mod ident;
pub mod prompt;
