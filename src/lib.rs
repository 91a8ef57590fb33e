//! Reading and writing SGF (Smart Game Format) game records.
use vstd::prelude::*;

pub mod assemble;
pub mod game_tree;
pub mod go;
pub mod lexer;
pub mod parser;
pub mod props;
pub mod round_trip;
pub mod serialize;
pub mod sgf_node;
mod text;
pub mod unknown_game;
pub mod values;

pub use game_tree::{GameTree, GameType};
pub use lexer::LexerError;
pub use parser::{parse, parse_with_options, ParseOptions, SgfParseError};
pub use props::rules::Violation;
pub use props::sgf_prop::SgfProp;
pub use serialize::serialize;
pub use sgf_node::{InvalidNodeError, SgfNode};
pub use values::{Color, Double, PropertyType, Real, SgfPropError, SimpleText, Text, ToSgf};
