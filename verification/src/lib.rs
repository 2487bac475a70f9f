//! Parser combinators over a cursor of tokens.
//!
//! A [`Parser`] reads a [`Cursor`] and gives a value or an error with a
//! [`ParseInfo`], the record of what it consumed and what it examined.
//! Parsers are built from leaves by the combinators of [`SizedParser`]:
//! rollback, mapping, sequencing and alternation, repetition, recovery,
//! named alternatives with diagnostics, and memoization.
//!
//! Each parser says, with `parsed`, which outcomes it may give from which
//! cursor, in terms of the outcomes of the parsers it is built from; with
//! `ready`, what it needs in order to be called.
use vstd::prelude::*;

pub mod cells;
pub mod combinators;
pub mod cursor;
pub mod errors;
pub mod indirection;
pub mod info;
pub mod memo;
pub mod parser;
pub mod primitives;
pub mod repetition;
pub mod sized;
pub mod state;
pub mod text;

pub use crate::cursor::{Cursor, TokenCursor};
pub use crate::info::ParseInfo;
pub use crate::parser::{ParseResult, Parser};
pub use crate::primitives::{fail, wrap};
pub use crate::sized::SizedParser;
