pub mod element;
pub mod keyword;
pub mod location;
pub mod punctuator;
pub mod symbol;
