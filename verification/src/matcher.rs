//! The fungible asset matcher: decides whether an asset descriptor
//! represents a recognized local currency and, if so, extracts its
//! transferable amount in the protocol's native numeric type.

use core::marker::PhantomData;
use vstd::prelude::*;

use crate::asset::AssetDescriptor;
use crate::asset::AssetDescriptorView;
use crate::conversion::CurrencyIdFromKey;
use crate::location::Junction;
use crate::location::JunctionView;

verus! {

/// A fungible-asset matching strategy: asset descriptor to optional
/// transferable amount in the numeric type `B`.
pub trait MatchesFungible<B> {
    /// Which descriptors this matcher accepts, and with which amount.
    spec fn spec_matches(asset: AssetDescriptorView) -> Option<B>;

    /// Matches `asset`; returns the amount exactly when the strategy
    /// accepts the descriptor.
    fn matches_fungible(asset: &AssetDescriptor) -> (r: Option<B>)
        ensures
            r == Self::spec_matches(asset@),
    ;
}

/// Matches a concrete-fungible descriptor whose location ends in a
/// general-key junction that the rule `K` recognizes as a currency. The
/// matched raw 128-bit amount is narrowed to 64 bits with an explicit
/// bounds check.
pub struct IsConcreteWithGeneralKey<K, CurrencyId>(PhantomData<(K, CurrencyId)>);

/// Whether `asset` is a concrete-fungible descriptor whose location's last
/// junction is a general-key segment.
pub open spec fn has_general_key_tail(asset: AssetDescriptorView) -> bool {
    match asset {
        AssetDescriptorView::ConcreteFungible { id, amount } => id.len() > 0 && (id.last() matches JunctionView::GeneralKey(_)),
        _ => false,
    }
}

/// The general-key bytes at the end of a descriptor that has them.
pub open spec fn general_key_tail(asset: AssetDescriptorView) -> Seq<u8>
    recommends
        has_general_key_tail(asset),
{
    match asset {
        AssetDescriptorView::ConcreteFungible { id, amount } => match id.last() {
            JunctionView::GeneralKey(key) => key,
            _ => Seq::empty(),
        },
        _ => Seq::empty(),
    }
}

/// The raw 128-bit amount of a concrete-fungible descriptor.
pub open spec fn raw_amount(asset: AssetDescriptorView) -> u128
    recommends
        asset matches AssetDescriptorView::ConcreteFungible { .. },
{
    match asset {
        AssetDescriptorView::ConcreteFungible { id, amount } => amount,
        _ => 0,
    }
}

impl<K: CurrencyIdFromKey<CurrencyId>, CurrencyId> MatchesFungible<u64> for IsConcreteWithGeneralKey<K, CurrencyId> {
    /// Accepts exactly the concrete-fungible descriptors whose location
    /// ends in a general-key segment that `K` recognizes and whose amount
    /// fits the target numeric type; the matched amount is the raw amount.
    open spec fn spec_matches(asset: AssetDescriptorView) -> Option<u64> {
        if has_general_key_tail(asset) && K::spec_from_key(general_key_tail(asset)) is Some
            && raw_amount(asset) <= u64::MAX {
            Option::Some(raw_amount(asset) as u64)
        } else {
            Option::None
        }
    }

    fn matches_fungible(asset: &AssetDescriptor) -> (r: Option<u64>) {
        match asset {
            AssetDescriptor::ConcreteFungible { id, amount } => {
                match id.last() {
                    Option::Some(junction) => match junction {
                        Junction::GeneralKey(key) => {
                            match K::from_key(key) {
                                Option::Some(_) => {
                                    if *amount <= u64::MAX as u128 {
                                        Option::Some(*amount as u64)
                                    } else {
                                        Option::None
                                    }
                                },
                                Option::None => Option::None,
                            }
                        },
                        _ => Option::None,
                    },
                    Option::None => Option::None,
                }
            },
            _ => Option::None,
        }
    }
}

/// Every descriptor whose location does not end in a general-key junction
/// is left unmatched, whatever its amount: this covers descriptors of the
/// wrong variant, empty locations, and locations whose general-key segment
/// is not the last one.
pub proof fn lemma_no_general_key_tail_no_match<K: CurrencyIdFromKey<CurrencyId>, CurrencyId>(
    asset: AssetDescriptorView,
)
    requires
        !has_general_key_tail(asset),
    ensures
        <IsConcreteWithGeneralKey<K, CurrencyId> as MatchesFungible<u64>>::spec_matches(asset) is None,
{
}

/// Every concrete-fungible descriptor with a recognized general-key tail
/// and an amount within the target numeric type's range matches, and the
/// matched amount is exactly the raw amount.
pub proof fn lemma_in_range_amount_matches_exactly<K: CurrencyIdFromKey<CurrencyId>, CurrencyId>(
    asset: AssetDescriptorView,
)
    requires
        has_general_key_tail(asset),
        K::spec_from_key(general_key_tail(asset)) is Some,
        raw_amount(asset) <= u64::MAX,
    ensures
        <IsConcreteWithGeneralKey<K, CurrencyId> as MatchesFungible<u64>>::spec_matches(asset)
            == Option::Some(raw_amount(asset) as u64),
{
}

/// Every descriptor whose amount exceeds the target numeric type's range is
/// left unmatched, however valid the rest of the descriptor is.
pub proof fn lemma_out_of_range_amount_no_match<K: CurrencyIdFromKey<CurrencyId>, CurrencyId>(
    asset: AssetDescriptorView,
)
    requires
        raw_amount(asset) > u64::MAX,
    ensures
        <IsConcreteWithGeneralKey<K, CurrencyId> as MatchesFungible<u64>>::spec_matches(asset) is None,
{
}

} // verus!
