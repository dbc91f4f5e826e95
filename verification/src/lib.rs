//! A compiler for a small language in the syntax of C: a parser from tokens to a syntax
//! tree, and an emitter from the tree to assembly text.

pub mod assembly;
pub mod ast;
pub mod emitter;
pub mod error;
pub mod frame;
pub mod grammar;
pub mod grouping;
pub mod label;
pub mod layout;
pub mod node;
pub mod notation;
pub mod parser;
pub mod scope;
pub mod stream;
pub mod text;
pub mod token;

pub use ast::{
    BinaryOperator, Constant, Expression, Function, Program, Statement, UnaryOperator,
};
pub use error::Error;
pub use frame::VarMap;
pub use emitter::declaration_count;
pub use label::gen_label;
pub use node::ASTNode;
pub use parser::{consume_token, parse};
pub use stream::TokenStream;
pub use token::{Keyword, Literal, Token};
