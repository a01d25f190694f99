//! Structural inference and descriptive statistics for delimited text files.
//!
//! The library works on lines of text that a caller has read from a file. It
//! does no input or output and holds no floating-point number.
//!
//! An analysis has these parts:
//!
//! - [`tokenizer`] splits a line into fields.
//! - [`structure`] decides whether the first line is a header and counts
//!   columns and data rows, one line at a time.
//! - [`sampling`] infers a type for every column from the first rows.
//! - [`statistics`] gathers the values of every column and prepares the
//!   measures of the numeric ones; [`frequencies`] ranks the values of the
//!   categorical ones.
//! - [`schema`] writes the text of the schema document and says where it is
//!   kept.
//! - [`analysis`] puts the parts together.
//!
//! Rows that are shorter than the file has columns are treated the same way
//! everywhere: they add nothing to the columns that they do not reach, neither
//! a value nor an empty one.
//!
//! Beside these, [`inspection`] looks up single rows, [`selection`] and
//! [`commands`] decide what the answers of a user mean, [`workspace`] describes
//! the directories and files of the application, and [`text`] and
//! [`numeric_text`] hold what all of them need of characters and numerals.

pub mod analysis;
pub mod columns;
pub mod commands;
pub mod errors;
pub mod frequencies;
pub mod inspection;
pub mod numeric_text;
pub mod sampling;
pub mod schema;
pub mod selection;
pub mod statistics;
pub mod structure;
pub mod text;
pub mod tokenizer;
pub mod workspace;
