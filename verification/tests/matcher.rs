use xmulticurrency::asset::AssetDescriptor;
use xmulticurrency::instances::BigEndianKey;
use xmulticurrency::location::Junction;
use xmulticurrency::location::Location;
use xmulticurrency::matcher::IsConcreteWithGeneralKey;
use xmulticurrency::matcher::MatchesFungible;

type Matcher = IsConcreteWithGeneralKey<BigEndianKey, u64>;

fn general_key_asset(key: Vec<u8>, amount: u128) -> AssetDescriptor {
    AssetDescriptor::ConcreteFungible {
        id: Location::from_junctions(vec![Junction::GeneralKey(key)]),
        amount,
    }
}

#[test]
fn matches_valid_key_and_amount() {
    let asset = general_key_asset(vec![65, 65, 65], 1000);
    assert_eq!(Matcher::matches_fungible(&asset), Some(1000));
}

#[test]
fn matches_zero_amount() {
    let asset = general_key_asset(vec![65, 65, 65], 0);
    assert_eq!(Matcher::matches_fungible(&asset), Some(0));
}

#[test]
fn matches_amount_at_range_boundary() {
    let asset = general_key_asset(vec![1], u64::MAX as u128);
    assert_eq!(Matcher::matches_fungible(&asset), Some(u64::MAX));
}

#[test]
fn no_match_on_amount_exceeding_range() {
    let asset = general_key_asset(vec![1], u64::MAX as u128 + 1);
    assert_eq!(Matcher::matches_fungible(&asset), None);
    let asset = general_key_asset(vec![1], u128::MAX);
    assert_eq!(Matcher::matches_fungible(&asset), None);
}

#[test]
fn no_match_on_empty_location() {
    let asset = AssetDescriptor::ConcreteFungible {
        id: Location::from_junctions(vec![]),
        amount: 1000,
    };
    assert_eq!(Matcher::matches_fungible(&asset), None);
}

#[test]
fn no_match_when_general_key_not_last() {
    let asset = AssetDescriptor::ConcreteFungible {
        id: Location::from_junctions(vec![
            Junction::GeneralKey(vec![65, 65, 65]),
            Junction::AccountIndex64 { index: 3 },
        ]),
        amount: 1000,
    };
    assert_eq!(Matcher::matches_fungible(&asset), None);
}

#[test]
fn no_match_when_last_junction_not_general_key() {
    let asset = AssetDescriptor::ConcreteFungible {
        id: Location::from_junctions(vec![Junction::Parent]),
        amount: 1000,
    };
    assert_eq!(Matcher::matches_fungible(&asset), None);
}

#[test]
fn no_match_on_wrong_variant() {
    let asset = AssetDescriptor::AbstractFungible { id: vec![65, 65, 65], amount: 1000 };
    assert_eq!(Matcher::matches_fungible(&asset), None);
    let asset = AssetDescriptor::ConcreteNonFungible {
        class: Location::from_junctions(vec![Junction::GeneralKey(vec![65])]),
        instance: 1,
    };
    assert_eq!(Matcher::matches_fungible(&asset), None);
}

#[test]
fn no_match_when_key_not_recognized() {
    let asset = general_key_asset(vec![], 1000);
    assert_eq!(Matcher::matches_fungible(&asset), None);
    let asset = general_key_asset(vec![9, 8, 7, 6, 5, 4, 3, 2, 1], 1000);
    assert_eq!(Matcher::matches_fungible(&asset), None);
}
