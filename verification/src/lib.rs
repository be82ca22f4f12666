//! Dimensionality reduction of tabular data by an N-body style particle
//! simulation: rows repel each other in proportion to a pairwise dissimilarity
//! (affinity) score and are pulled toward a central value, and a staged
//! "squeeze" schedule flattens surplus output coordinates at the end of the
//! run.  All quantities are carried as fixed-point integers (millionths), so
//! every arithmetic step of the simulation has an exact contract.

pub mod fixed;
pub mod matrix;
pub mod affinity;
pub mod sim;
pub mod schedule;
pub mod init;
pub mod columns;
