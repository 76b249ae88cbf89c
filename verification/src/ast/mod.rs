pub mod block;
pub mod declaration;
pub mod expression;
pub mod literal;
pub mod node;
pub mod op;
pub mod statement;
pub mod well_known;
