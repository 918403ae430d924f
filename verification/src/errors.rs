//! Error taxonomy of the distribution engine.
//!
//! Construction-time failures abort a run; delivery-time failures are
//! handled per submission and never surface as one of these values.

use vstd::prelude::*;

verus! {

/// A failure while turning recipients and parameters into signed transactions.
#[derive(Debug, Clone, Copy, PartialEq, Eq, Structural)]
pub enum BuildError {
    /// Recipient and amount lists differ in length.
    Consistency,
    /// The gas simulation for a batch failed; no safe gas ceiling exists.
    Estimation,
    /// The signing step rejected the key material.
    Signing,
    /// A group's total transfer value does not fit the wire value field.
    ValueOverflow,
}

/// A failure while resolving the run configuration, before any network activity.
#[derive(Debug, Clone, Copy, PartialEq, Eq, Structural)]
pub enum ConfigError {
    /// The distribution-variant selector matched no known variant.
    UnknownDistributionType,
    /// The endpoint list is empty.
    NoEndpoints,
    /// The chosen variant needs a recipient file and none was given.
    MissingAddressesFile,
    /// The chosen variant needs the token section and it is absent.
    MissingTokenConfig,
    /// The chosen variant needs the collectible section and it is absent.
    MissingNftConfig,
    /// The chosen variant needs the swapper section and it is absent.
    MissingSwapperConfig,
}

/// A failure while loading a recipient source.
#[derive(Debug, Clone, Copy, PartialEq, Eq, Structural)]
pub enum LoadError {
    /// The source mixes amount-bearing and amount-less rows.
    MixedAmountRows,
}

} // verus!
