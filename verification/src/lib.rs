//! The constraint-and-lookup core of a multi-table STARK proving system.
//!
//! Each table of the machine brings its own arithmetization: per-row algebraic
//! identities and declared cross-table interactions (sends and receives of
//! value tuples over logical channels). This crate wraps every table into one
//! uniform unit ([`chip::Chip`]): it harvests the table's interactions, checks
//! their arities, fixes the quotient-degree bound, generates the randomized
//! running-sum (permutation) trace that encodes the lookup argument, and
//! evaluates the combined constraint set. The cumulative sums the tables
//! expose add to zero over every valid execution ([`balance`]), which is what
//! lets the outer pipeline prove that every send is matched by its receives.
//!
//! Field arithmetic itself is delegated to the `p3-baby-bear` and `p3-field`
//! crates; [`field`] and [`ext`] model the values as plain integers modulo the
//! field order.

pub mod balance;
pub mod bytes_utils;
pub mod chip;
pub mod constraints;
pub mod expr;
pub mod ext;
pub mod field;
pub mod interaction;
pub mod memory;
pub mod permutation;
pub mod trace;
