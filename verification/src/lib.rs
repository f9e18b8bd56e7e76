pub mod format;
pub mod ident;
pub mod error;
pub mod value;
pub mod symbol;
pub mod chain;
pub mod decimal;
pub mod hash;
pub mod table;
pub mod laws;
