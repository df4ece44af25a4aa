pub mod expression;
pub mod laws;
pub mod lexer;
pub mod parser;
pub mod satisfability;

pub use expression::Expression;
pub use lexer::{Lexer, LexerError, LexerResult, Token};
pub use parser::{Parser, ParserError, ParserResult};
pub use satisfability::{DynamicSatisfability, Expectative, GeneralSatisfability, Requirement};
