//! Row-oriented access to columnar query results.
//!
//! A query engine hands back columnar batches; downstream code wants rows.
//! This crate materializes an ordered sequence of batches into an ordered
//! sequence of rows, each row a mapping from column name to a tagged scalar
//! value, and offers typed accessors that project a scalar back out of a row.

pub mod materialize;
pub mod row;
pub mod value;

pub use materialize::{Batch, BatchDataFrame, Column, ColumnData};
pub use row::BatchDataFrameRow;
pub use value::{BatchDataFrameValue, DataFrameError, ScalarKind};
