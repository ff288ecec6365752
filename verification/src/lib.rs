//! Claim resolution and truth scoring.
//!
//! Content is submitted with a locator, claims raised in it are attached to
//! it, each claim is eventually resolved as accepted or rejected, and the
//! share of accepted resolutions becomes the content's score. Every operation
//! is a verified transition of an in-memory ledger; a host that keeps the
//! records elsewhere drives the same transitions record by record.

pub mod content;
pub mod helper;
pub mod ids;
pub mod laws;
pub mod ledger;
pub mod ministry_of_truth;
pub mod pallet;
pub mod score;
pub mod steps;
