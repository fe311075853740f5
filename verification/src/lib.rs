//! Overlaying values on a page description by content inspection.
//!
//! A page is a sequence of drawing instructions. The scanner walks it once,
//! pairs the most recent rectangle with the text drawn after it and, where
//! the text is the marker of a configured rule, yields a placement. The
//! generator turns a placement into the instructions that draw its value.
//!
//! - [`number`] and [`instruction`]: numbers, operands and instructions.
//! - [`config`] and [`defaults`]: rules, placements, the configuration, and
//!   the ones used where none are supplied.
//! - [`fonts`]: the font encoding table of a page.
//! - [`text`]: the text of a show-text instruction, decoded by `lopdf`.
//! - [`scan`]: the content scanner and what holds of every scan.
//! - [`generate`]: the overlay generator and the decimal split.
//! - [`flow`]: what the modify and the create flow compute.
//! - [`errors`]: the classes of storage failures.
//!
//! The library reads and writes no documents, and it holds reals as bits:
//! where an instruction needs a sum of a real and a whole shift, it names
//! the two and leaves the sum to whoever encodes the instruction.

pub mod config;
pub mod defaults;
pub mod errors;
pub mod flow;
pub mod fonts;
pub mod generate;
pub mod instruction;
pub mod number;
pub mod scan;
pub mod text;
