//! A terminal kanji flashcard quiz library.
//!
//! The library holds the quiz's core logic: parsing a category selection
//! from a command-line token, filtering kanji records by category, picking
//! one record at random, grading a typed answer against the stored
//! meanings, and updating the persisted selection in memory.  Reading and
//! writing the record file, the terminal, and the browser are left to the
//! surrounding program.

pub mod errors;
pub mod grade;
pub mod parse;
pub mod pick;
pub mod records;
pub mod select;
pub mod session;
pub mod text;

pub use errors::QuizError;
