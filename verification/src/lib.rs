//! A pre-tokenizer for C-like syntaxes.
//!
//! [`Pretokenizer`] walks a string slice and hands out [`Pretoken`]s: the
//! stretches of input that are left once whitespace, `// line comments` and
//! `/* block comments */` are taken away, with a `"quoted string"` kept in one
//! piece. Each pretoken carries the line it ends on and the byte offset at
//! which it starts.
//!
//! ```
//! use pretok::{Pretoken, Pretokenizer};
//!
//! let mut pt = Pretokenizer::new("x+\"h e l l o\"+z // and\n/* so */ on");
//! assert_eq!(pt.next(), Some(Pretoken { s: "x+", line: 1, offset: 0 }));
//! assert_eq!(pt.next(), Some(Pretoken { s: "\"h e l l o\"", line: 1, offset: 2 }));
//! assert_eq!(pt.next(), Some(Pretoken { s: "+z", line: 1, offset: 13 }));
//! assert_eq!(pt.next(), Some(Pretoken { s: "on", line: 2, offset: 32 }));
//! assert_eq!(pt.next(), None);
//! ```
//!
//! [`Pretokenizer::next`] hands out one pretoken, [`Pretokenizer::collect`]
//! all that are left. What they return is stated over the state machine of
//! [`machine`], a function on sequences of code points. [`shape`] says where
//! a pretoken starts and ends without the machine, and proves that the
//! machine finds just that. [`laws`] holds what else is proved of one call,
//! [`stream`] what is proved of the calls of a whole scan: that it ends, that
//! the lines it gives never go back, and that its pretokens and the gaps
//! between them make up the input. [`cursor`] states, without proof, what the
//! string cursor does that the scanner is built on, and [`bytes`] ties
//! offsets in bytes to indices of code points.

pub mod bytes;
pub mod cursor;
pub mod laws;
pub mod machine;
pub mod pretoken;
pub mod pretokenizer;
pub mod shape;
pub mod stream;

pub use pretoken::Pretoken;
pub use pretokenizer::Pretokenizer;
