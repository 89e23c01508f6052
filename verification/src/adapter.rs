//! The transaction adapter: orchestrates the end-to-end conversion pipeline
//! for deposits and withdrawals. Each operation resolves the location to an
//! account, resolves the asset to a currency, matches the asset's fungible
//! amount, converts it to the ledger's balance type, and invokes the ledger
//! primitive — in that order, with every failure collapsed to the one
//! generic error and with no ledger mutation on any failure path.

use core::marker::PhantomData;
use vstd::prelude::*;

use crate::asset::AssetDescriptor;
use crate::asset::AssetDescriptorView;
use crate::conversion::CurrencyIdConversion;
use crate::conversion::LocationConversion;
use crate::ledger::balances_unchanged;
use crate::ledger::credited;
use crate::ledger::debited;
use crate::ledger::MultiCurrency;
use crate::location::JunctionView;
use crate::location::Location;
use crate::matcher::MatchesFungible;
use crate::XcmError;

verus! {

/// The transaction adapter, parameterized by its collaborators: the ledger,
/// the fungible matcher, the location-to-account converter, the account
/// type, the asset-to-currency resolver, and the currency type.
pub struct MultiCurrencyAdapter<MultiCurrency, Matcher, AccountIdConverter, AccountId, CurrencyIdConverter, CurrencyId>(
    PhantomData<(MultiCurrency, Matcher, AccountIdConverter, AccountId, CurrencyIdConverter, CurrencyId)>,
);

impl<L, M, AC, A, CC, C> MultiCurrencyAdapter<L, M, AC, A, CC, C> where
    L: MultiCurrency<C, A>,
    M: MatchesFungible<u64>,
    AC: LocationConversion<A>,
    CC: CurrencyIdConversion<C>,
 {
    /// What the resolution pipeline yields for a given asset and location:
    /// the currency, the account, and the amount to settle, or nothing as
    /// soon as one stage fails. The stages are checked in the operations'
    /// order — account, currency, amount — though the result does not
    /// depend on it.
    pub open spec fn spec_resolved(asset: AssetDescriptorView, location: Seq<JunctionView>) -> Option<(C, A, u64)> {
        match AC::spec_from_location(location) {
            Option::Some(who) => match CC::spec_from_asset(asset) {
                Option::Some(currency) => match M::spec_matches(asset) {
                    Option::Some(amount) => Option::Some((currency, who, amount)),
                    Option::None => Option::None,
                },
                Option::None => Option::None,
            },
            Option::None => Option::None,
        }
    }

    /// Credits the account resolved from `location` with the amount matched
    /// from `asset`, in the currency resolved from `asset`. Fails, touching
    /// no balance, when any resolution stage fails or the ledger rejects
    /// the deposit; on success exactly the resolved balance grows by the
    /// matched amount.
    pub fn deposit_asset(ledger: &mut L, asset: &AssetDescriptor, location: &Location) -> (r: Result<(), XcmError>)
        ensures
            match Self::spec_resolved(asset@, location@) {
                Option::Some(t) => {
                    &&& (r is Ok <==> old(ledger).deposit_accepts(t.0, t.1, t.2))
                    &&& (r is Ok ==> credited(*old(ledger), *final(ledger), t.0, t.1, t.2))
                    &&& (r is Err ==> balances_unchanged(*old(ledger), *final(ledger)))
                },
                Option::None => r is Err && balances_unchanged(*old(ledger), *final(ledger)),
            },
    {
        let who = match AC::from_location(location) {
            Option::Some(w) => w,
            Option::None => { return Result::Err(XcmError::Undefined) },
        };
        let currency_id = match CC::from_asset(asset) {
            Option::Some(c) => c,
            Option::None => { return Result::Err(XcmError::Undefined) },
        };
        let amount = match M::matches_fungible(asset) {
            Option::Some(m) => m,
            Option::None => { return Result::Err(XcmError::Undefined) },
        };
        // The matched amount re-enters the ledger's balance type through
        // the protocol-native 128-bit width; the bounds check cannot fail
        // here because the matcher already narrowed the amount.
        let wide: u128 = amount as u128;
        if wide > u64::MAX as u128 {
            return Result::Err(XcmError::Undefined);
        }
        let balance_amount: u64 = wide as u64;
        match ledger.deposit(currency_id, &who, balance_amount) {
            Result::Ok(()) => Result::Ok(()),
            Result::Err(_) => Result::Err(XcmError::Undefined),
        }
    }

    /// Debits the account resolved from `location` by the amount matched
    /// from `asset`, in the currency resolved from `asset`. Fails, touching
    /// no balance, when any resolution stage fails or the ledger rejects
    /// the withdrawal; on success exactly the resolved balance shrinks by
    /// the matched amount and an identical copy of the requested descriptor
    /// is returned — withdrawal is all-or-nothing.
    pub fn withdraw_asset(ledger: &mut L, asset: &AssetDescriptor, location: &Location) -> (r: Result<AssetDescriptor, XcmError>)
        ensures
            match Self::spec_resolved(asset@, location@) {
                Option::Some(t) => {
                    &&& (r is Ok <==> old(ledger).withdraw_accepts(t.0, t.1, t.2))
                    &&& (r is Ok ==> debited(*old(ledger), *final(ledger), t.0, t.1, t.2)
                        && (r->Ok_0)@ == asset@)
                    &&& (r is Err ==> balances_unchanged(*old(ledger), *final(ledger)))
                },
                Option::None => r is Err && balances_unchanged(*old(ledger), *final(ledger)),
            },
    {
        let who = match AC::from_location(location) {
            Option::Some(w) => w,
            Option::None => { return Result::Err(XcmError::Undefined) },
        };
        let currency_id = match CC::from_asset(asset) {
            Option::Some(c) => c,
            Option::None => { return Result::Err(XcmError::Undefined) },
        };
        let amount = match M::matches_fungible(asset) {
            Option::Some(m) => m,
            Option::None => { return Result::Err(XcmError::Undefined) },
        };
        // As in the deposit: the width round trip cannot fail here.
        let wide: u128 = amount as u128;
        if wide > u64::MAX as u128 {
            return Result::Err(XcmError::Undefined);
        }
        let balance_amount: u64 = wide as u64;
        match ledger.withdraw(currency_id, &who, balance_amount) {
            Result::Ok(()) => Result::Ok(asset.duplicate()),
            Result::Err(_) => Result::Err(XcmError::Undefined),
        }
    }

    /// If account resolution fails, the pipeline yields nothing — so by the
    /// operations' contracts both deposit and withdraw fail and touch no
    /// balance.
    pub proof fn lemma_unresolved_account_no_resolution(asset: AssetDescriptorView, location: Seq<JunctionView>)
        requires
            AC::spec_from_location(location) is None,
        ensures
            Self::spec_resolved(asset, location) is None,
    {
    }

    /// If currency resolution succeeds but amount matching fails, the
    /// pipeline yields nothing — so by the operations' contracts both
    /// deposit and withdraw fail and touch no balance.
    pub proof fn lemma_unmatched_amount_no_resolution(asset: AssetDescriptorView, location: Seq<JunctionView>)
        requires
            CC::spec_from_asset(asset) is Some,
            M::spec_matches(asset) is None,
        ensures
            Self::spec_resolved(asset, location) is None,
    {
    }
}

} // verus!
