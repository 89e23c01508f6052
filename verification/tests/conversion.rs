use xmulticurrency::asset::AssetDescriptor;
use xmulticurrency::conversion::CurrencyIdConversion;
use xmulticurrency::conversion::CurrencyIdFromKey;
use xmulticurrency::conversion::LocationConversion;
use xmulticurrency::instances::AccountIndex64Conversion;
use xmulticurrency::instances::BigEndianKey;
use xmulticurrency::instances::CurrencyIdFromGeneralKey;
use xmulticurrency::location::Junction;
use xmulticurrency::location::Location;

type CurrencyConverter = CurrencyIdFromGeneralKey<BigEndianKey, u64>;

#[test]
fn big_endian_key_exact_values() {
    assert_eq!(BigEndianKey::from_key(&vec![65, 65, 65]), Some(0x414141));
    assert_eq!(BigEndianKey::from_key(&vec![1]), Some(1));
    assert_eq!(BigEndianKey::from_key(&vec![0]), Some(0));
    assert_eq!(BigEndianKey::from_key(&vec![1, 0]), Some(256));
    assert_eq!(BigEndianKey::from_key(&vec![1, 0, 0, 0, 0, 0, 0, 0]), Some(1u64 << 56));
    assert_eq!(
        BigEndianKey::from_key(&vec![255, 255, 255, 255, 255, 255, 255, 255]),
        Some(u64::MAX)
    );
}

#[test]
fn big_endian_key_rejects_unrecognized_keys() {
    assert_eq!(BigEndianKey::from_key(&vec![]), None);
    assert_eq!(BigEndianKey::from_key(&vec![0, 1]), None);
    assert_eq!(BigEndianKey::from_key(&vec![1, 2, 3, 4, 5, 6, 7, 8, 9]), None);
}

#[test]
fn account_conversion_resolves_single_account_index() {
    let location = Location::from_junctions(vec![Junction::AccountIndex64 { index: 42 }]);
    assert_eq!(AccountIndex64Conversion::from_location(&location), Some(42));
}

#[test]
fn account_conversion_rejects_other_paths() {
    assert_eq!(AccountIndex64Conversion::from_location(&Location::new()), None);
    let parent = Location::from_junctions(vec![Junction::Parent]);
    assert_eq!(AccountIndex64Conversion::from_location(&parent), None);
    let two = Location::from_junctions(vec![
        Junction::AccountIndex64 { index: 1 },
        Junction::AccountIndex64 { index: 2 },
    ]);
    assert_eq!(AccountIndex64Conversion::from_location(&two), None);
    let key = Location::from_junctions(vec![Junction::GeneralKey(vec![65])]);
    assert_eq!(AccountIndex64Conversion::from_location(&key), None);
}

#[test]
fn currency_resolves_from_general_key_tail() {
    let asset = AssetDescriptor::ConcreteFungible {
        id: Location::from_junctions(vec![
            Junction::Parachain(2000),
            Junction::GeneralKey(vec![65, 65, 65]),
        ]),
        amount: 5,
    };
    assert_eq!(CurrencyConverter::from_asset(&asset), Some(0x414141));
}

#[test]
fn currency_unresolvable_without_general_key_tail() {
    let asset = AssetDescriptor::ConcreteFungible {
        id: Location::from_junctions(vec![Junction::Parachain(2000)]),
        amount: 5,
    };
    assert_eq!(CurrencyConverter::from_asset(&asset), None);
    let abstract_asset = AssetDescriptor::AbstractFungible { id: vec![65], amount: 5 };
    assert_eq!(CurrencyConverter::from_asset(&abstract_asset), None);
}

#[test]
fn location_duplicate_and_last() {
    let location = Location::from_junctions(vec![
        Junction::Parent,
        Junction::GeneralKey(vec![7, 7]),
    ]);
    let copy = location.duplicate();
    assert_eq!(copy, location);
    assert_eq!(copy.len(), 2);
    assert_eq!(copy.last(), Some(&Junction::GeneralKey(vec![7, 7])));
    assert_eq!(Location::new().last(), None);
}

#[test]
fn asset_duplicate_equals_original() {
    let asset = AssetDescriptor::ConcreteFungible {
        id: Location::from_junctions(vec![Junction::GeneralKey(vec![65, 65, 65])]),
        amount: 77,
    };
    assert_eq!(asset.duplicate(), asset);
}
