use vstd::prelude::*;

pub mod lexer;
pub mod parser;
pub mod term;
pub mod game;
pub mod game_object;
pub mod text;

verus! {

} // verus!
