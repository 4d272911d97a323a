//! Memory-management primitives with their bookkeeping proved: a single-owner
//! cell, a reference-counted box whose blocks live in an arena, and a cell
//! whose shared and exclusive borrows are tracked at run time.
pub mod cell;
pub mod rc;
pub mod refcell;
