//! Conversion interfaces for the collaborators the adapter depends on: the
//! rule turning a general-key byte sequence into a currency identifier, the
//! location-to-account converter, and the asset-to-currency resolver. Each
//! is a narrow capability interface: an implementation names its decision as
//! a spec function and the executable method is held to it exactly.

use vstd::prelude::*;

use crate::asset::AssetDescriptor;
use crate::asset::AssetDescriptorView;
use crate::location::JunctionView;
use crate::location::Location;

verus! {

/// The currency-tag extraction rule: a fallible, lossless interpretation of
/// an opaque byte sequence as a currency identifier.
pub trait CurrencyIdFromKey<CurrencyId> {
    /// Which keys this rule recognizes, and as which currency.
    spec fn spec_from_key(key: Seq<u8>) -> Option<CurrencyId>;

    /// Interprets `key`; returns the currency exactly when the rule
    /// recognizes the key.
    fn from_key(key: &Vec<u8>) -> (r: Option<CurrencyId>)
        ensures
            r == Self::spec_from_key(key@),
    ;
}

/// The location-to-account converter: resolves a structured location path
/// to a local account identifier.
pub trait LocationConversion<AccountId> {
    /// Which locations this converter resolves, and to which account.
    spec fn spec_from_location(location: Seq<JunctionView>) -> Option<AccountId>;

    /// Resolves `location`; returns the account exactly when the converter
    /// recognizes the path.
    fn from_location(location: &Location) -> (r: Option<AccountId>)
        ensures
            r == Self::spec_from_location(location@),
    ;
}

/// The currency identity resolver: decides whether an asset descriptor
/// corresponds to a locally known currency.
pub trait CurrencyIdConversion<CurrencyId> {
    /// Which descriptors this resolver recognizes, and as which currency.
    spec fn spec_from_asset(asset: AssetDescriptorView) -> Option<CurrencyId>;

    /// Resolves `asset`; returns the currency exactly when the resolver
    /// recognizes the descriptor.
    fn from_asset(asset: &AssetDescriptor) -> (r: Option<CurrencyId>)
        ensures
            r == Self::spec_from_asset(asset@),
    ;
}

} // verus!
