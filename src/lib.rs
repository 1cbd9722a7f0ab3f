//! Storage and consistency core of a collaborative database: ordered view
//! projections with their structural diffs, record collections, rows and
//! their typed changes, the row store with its loading decisions, and the
//! coordinator that keeps rows and views consistent.
pub mod block;
pub mod cell;
pub mod database;
pub mod document;
pub mod field;
pub mod ids;
pub mod importer;
pub mod order;
pub mod record;
pub mod row;
pub mod row_observer;
pub mod view;
pub mod workspace;
