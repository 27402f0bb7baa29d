pub mod calculus;
pub mod expression;
pub mod num;
pub mod parser;
pub mod simplify;

pub use expression::Expression;
pub use parser::ExpressionParser;
pub use num::Num;
pub use num::NumUnit;
