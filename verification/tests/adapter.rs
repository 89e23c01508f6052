use xmulticurrency::adapter::MultiCurrencyAdapter;
use xmulticurrency::asset::AssetDescriptor;
use xmulticurrency::instances::AccountIndex64Conversion;
use xmulticurrency::instances::BigEndianKey;
use xmulticurrency::instances::CurrencyIdFromGeneralKey;
use xmulticurrency::ledger::InMemoryLedger;
use xmulticurrency::location::Junction;
use xmulticurrency::location::Location;
use xmulticurrency::matcher::IsConcreteWithGeneralKey;
use xmulticurrency::XcmError;
use xmulticurrency::XcmHandler;

type Adapter = MultiCurrencyAdapter<
    InMemoryLedger,
    IsConcreteWithGeneralKey<BigEndianKey, u64>,
    AccountIndex64Conversion,
    u64,
    CurrencyIdFromGeneralKey<BigEndianKey, u64>,
    u64,
>;

const AAA: u64 = 0x414141;

fn aaa_asset(amount: u128) -> AssetDescriptor {
    AssetDescriptor::ConcreteFungible {
        id: Location::from_junctions(vec![Junction::GeneralKey(vec![65, 65, 65])]),
        amount,
    }
}

fn account_location(index: u64) -> Location {
    Location::from_junctions(vec![Junction::AccountIndex64 { index }])
}

#[test]
fn deposit_credits_and_withdraw_debits_back() {
    let mut ledger = InMemoryLedger::new();
    let asset = aaa_asset(1000);
    let location = account_location(7);
    assert_eq!(Adapter::deposit_asset(&mut ledger, &asset, &location), Ok(()));
    assert_eq!(ledger.balance(AAA, 7), 1000);
    let withdrawn = Adapter::withdraw_asset(&mut ledger, &asset, &location);
    assert_eq!(withdrawn, Ok(asset));
    assert_eq!(ledger.balance(AAA, 7), 0);
}

#[test]
fn withdraw_returns_a_copy_of_the_requested_asset() {
    let mut ledger = InMemoryLedger::new();
    let asset = aaa_asset(25);
    let location = account_location(3);
    assert_eq!(Adapter::deposit_asset(&mut ledger, &asset, &location), Ok(()));
    let withdrawn = Adapter::withdraw_asset(&mut ledger, &asset, &location).unwrap();
    assert_eq!(withdrawn, asset);
}

#[test]
fn empty_location_asset_fails_both_operations() {
    let mut ledger = InMemoryLedger::new();
    let asset = AssetDescriptor::ConcreteFungible {
        id: Location::from_junctions(vec![]),
        amount: 1000,
    };
    let location = account_location(7);
    assert_eq!(
        Adapter::deposit_asset(&mut ledger, &asset, &location),
        Err(XcmError::Undefined)
    );
    assert_eq!(
        Adapter::withdraw_asset(&mut ledger, &asset, &location),
        Err(XcmError::Undefined)
    );
    assert_eq!(ledger.balance(AAA, 7), 0);
}

#[test]
fn unresolvable_account_location_touches_no_balance() {
    let mut ledger = InMemoryLedger::new();
    let asset = aaa_asset(1000);
    let location = Location::from_junctions(vec![Junction::Parent]);
    assert_eq!(
        Adapter::deposit_asset(&mut ledger, &asset, &location),
        Err(XcmError::Undefined)
    );
    assert_eq!(
        Adapter::withdraw_asset(&mut ledger, &asset, &location),
        Err(XcmError::Undefined)
    );
    assert_eq!(ledger.balance(AAA, 7), 0);
}

#[test]
fn out_of_range_amount_touches_no_balance() {
    let mut ledger = InMemoryLedger::new();
    let asset = aaa_asset(u64::MAX as u128 + 1);
    let location = account_location(7);
    assert_eq!(
        Adapter::deposit_asset(&mut ledger, &asset, &location),
        Err(XcmError::Undefined)
    );
    assert_eq!(
        Adapter::withdraw_asset(&mut ledger, &asset, &location),
        Err(XcmError::Undefined)
    );
    assert_eq!(ledger.balance(AAA, 7), 0);
}

#[test]
fn unknown_currency_key_fails() {
    let mut ledger = InMemoryLedger::new();
    let asset = AssetDescriptor::ConcreteFungible {
        id: Location::from_junctions(vec![Junction::GeneralKey(vec![1, 2, 3, 4, 5, 6, 7, 8, 9])]),
        amount: 1000,
    };
    let location = account_location(7);
    assert_eq!(
        Adapter::deposit_asset(&mut ledger, &asset, &location),
        Err(XcmError::Undefined)
    );
}

#[test]
fn ledger_rejection_maps_to_the_generic_error() {
    let mut ledger = InMemoryLedger::new();
    let asset = aaa_asset(1000);
    let location = account_location(7);
    let withdrawn = Adapter::withdraw_asset(&mut ledger, &asset, &location);
    assert_eq!(withdrawn, Err(XcmError::Undefined));
    assert_eq!(ledger.balance(AAA, 7), 0);
}

struct NoopHandler;

impl XcmHandler for NoopHandler {
    type Origin = u64;
    type Xcm = Vec<u8>;

    fn execute(_origin: u64, _xcm: Vec<u8>) -> Result<(), XcmError> {
        Ok(())
    }
}

#[test]
fn handler_interface_is_implementable() {
    assert_eq!(NoopHandler::execute(1, vec![0]), Ok(()));
}
