//! An asset-transfer adapter: bridges a chain-agnostic asset description
//! (a fungible asset identifier plus a structured ownership location path)
//! to a local multi-currency ledger keyed by account and currency
//! identifiers.
//!
//! The core pieces are the fungible asset matcher, which decides whether an
//! asset descriptor represents a recognized local currency and extracts its
//! transferable amount, and the transaction adapter, which orchestrates the
//! resolve-match-convert-settle pipeline for deposits and withdrawals.

use vstd::prelude::*;

pub mod adapter;
pub mod asset;
pub mod conversion;
pub mod instances;
pub mod ledger;
pub mod location;
pub mod matcher;

verus! {

/// The single generic error kind at the adapter boundary. Every failure mode
/// (unresolvable account, unknown currency, no fungible match, amount out of
/// range, ledger rejection) collapses to this one value; callers cannot
/// distinguish them.
#[derive(Clone, Copy, Debug, PartialEq, Eq, Structural)]
pub enum XcmError {
    Undefined,
}

/// Interface for a host component able to execute a cross-boundary message
/// from a given origin. This core only consumes the interface shape; it
/// provides no implementation.
pub trait XcmHandler {
    type Origin;

    type Xcm;

    fn execute(origin: Self::Origin, xcm: Self::Xcm) -> Result<(), XcmError>;
}

} // verus!
