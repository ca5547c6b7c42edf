//! Schema cache and append-slot allocation for pre-formatted spreadsheets.
//!
//! A spreadsheet is scanned once into a structural schema: header row,
//! headers, column formats, last data row. The schema is mirrored in memory,
//! validated against the file's modification time, and used to allocate the
//! next free row for each appended record.
//!
//! The library decides and computes; whoever uses it opens the files, runs
//! the store and writes the rows:
//!
//! - [`scanner`] scans one sheet of a workbook ([`workbook`] holds what a
//!   workbook's sheets contain; [`datatype`] infers column types),
//! - [`cache`] is the in-memory mirror,
//! - [`allocator`] runs a request for a schema or an append as a sequence of
//!   steps and replies ([`fields`] computes the cells of the new row),
//! - [`store`] makes the values that the durable store keeps,
//! - [`excel`], [`sheet`], [`commands`] and [`parts`] serve the mapping
//!   view and the writer,
//! - [`reply`] and [`names`] read the fields of a document from the reply of
//!   the document reader,
//! - [`models`], [`letters`] and [`text`] hold the schema types, the column
//!   letters and the text helpers that the rest builds on.

pub mod text;
pub mod letters;
pub mod models;
pub mod workbook;
pub mod sheet;
pub mod datatype;
pub mod scanner;
pub mod cache;
pub mod fields;
pub mod allocator;
pub mod excel;
pub mod commands;
pub mod store;
pub mod names;
pub mod parts;
pub mod reply;
