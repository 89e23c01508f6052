//! Ready-made implementations of the conversion interfaces: a currency-tag
//! rule that reads a short key as a big-endian 64-bit identifier, a
//! location-to-account converter that resolves single account-index paths,
//! and a currency resolver that reads the tag off a concrete-fungible
//! descriptor's general-key tail. Together with the in-memory ledger they
//! make the adapter runnable end to end.

use core::marker::PhantomData;
use vstd::prelude::*;

use crate::asset::AssetDescriptor;
use crate::asset::AssetDescriptorView;
use crate::conversion::CurrencyIdConversion;
use crate::conversion::CurrencyIdFromKey;
use crate::conversion::LocationConversion;
use crate::location::Junction;
use crate::location::JunctionView;
use crate::location::Location;
use crate::matcher::general_key_tail;
use crate::matcher::has_general_key_tail;

verus! {

/// The big-endian value of a byte sequence.
pub open spec fn be_value(key: Seq<u8>) -> nat
    decreases key.len(),
{
    if key.len() == 0 {
        0
    } else {
        (be_value(key.drop_last()) * 256 + key.last()) as nat
    }
}

/// 256 raised to `n`.
pub open spec fn pow256(n: nat) -> nat
    decreases n,
{
    if n == 0 {
        1nat
    } else {
        256 * pow256((n - 1) as nat)
    }
}

proof fn lemma_pow256_le(i: nat, j: nat)
    requires
        i <= j,
    ensures
        1 <= pow256(i) <= pow256(j),
    decreases j,
{
    if i < j {
        lemma_pow256_le(i, (j - 1) as nat);
    } else if i == j && i > 0 {
        lemma_pow256_le((i - 1) as nat, (j - 1) as nat);
    }
}

proof fn lemma_be_value_bound(key: Seq<u8>)
    ensures
        be_value(key) < pow256(key.len()),
    decreases key.len(),
{
    if key.len() > 0 {
        lemma_be_value_bound(key.drop_last());
    } else {
        lemma_pow256_le(0, 0);
    }
}

proof fn lemma_pow256_eight()
    ensures
        pow256(7) == 0x100000000000000,
        pow256(8) == 0x10000000000000000,
{
    reveal_with_fuel(pow256, 9);
}

/// A currency-tag rule: a key of one to eight bytes without a redundant
/// leading zero is read as the big-endian value of its bytes; the empty
/// key, longer keys and zero-padded keys are not recognized. Rejecting the
/// padding makes the reading lossless: distinct recognized keys never name
/// the same currency (see `lemma_from_key_lossless`).
pub struct BigEndianKey;

impl CurrencyIdFromKey<u64> for BigEndianKey {
    /// Keys of one to eight bytes whose first byte is nonzero — or the
    /// single zero byte — are recognized, as their big-endian value.
    open spec fn spec_from_key(key: Seq<u8>) -> Option<u64> {
        if 1 <= key.len() <= 8 && (key.len() == 1 || key[0] != 0) {
            Option::Some(be_value(key) as u64)
        } else {
            Option::None
        }
    }

    fn from_key(key: &Vec<u8>) -> (r: Option<u64>) {
        let n = key.len();
        if n == 0 || n > 8 {
            return Option::None;
        }
        if n > 1 && key[0] == 0 {
            return Option::None;
        }
        let mut acc: u64 = 0;
        let mut i: usize = 0;
        while i < n
            invariant
                n == key@.len(),
                1 <= n <= 8,
                i <= n,
                acc == be_value(key@.take(i as int)),
            decreases n - i,
        {
            proof {
                lemma_be_value_bound(key@.take(i as int));
                lemma_pow256_le(i as nat, 7);
                lemma_pow256_eight();
            }
            let b = key[i];
            acc = acc * 256 + (b as u64);
            proof {
                assert(key@.take(i + 1 as int).drop_last() =~= key@.take(i as int));
            }
            i = i + 1;
        }
        proof {
            assert(key@.take(n as int) =~= key@);
            lemma_be_value_bound(key@);
            lemma_pow256_le(n as nat, 8);
            lemma_pow256_eight();
        }
        Option::Some(acc)
    }
}

proof fn lemma_be_value_lower(key: Seq<u8>)
    requires
        key.len() > 0,
        key[0] != 0,
    ensures
        be_value(key) >= pow256((key.len() - 1) as nat),
    decreases key.len(),
{
    if key.len() == 1 {
        assert(key.drop_last().len() == 0);
    } else {
        let prefix = key.drop_last();
        assert(prefix[0] == key[0]);
        lemma_be_value_lower(prefix);
    }
}

proof fn lemma_be_value_same_len_injective(k1: Seq<u8>, k2: Seq<u8>)
    requires
        k1.len() == k2.len(),
        be_value(k1) == be_value(k2),
    ensures
        k1 == k2,
    decreases k1.len(),
{
    if k1.len() == 0 {
        assert(k1 =~= k2);
    } else {
        let p1 = k1.drop_last();
        let p2 = k2.drop_last();
        assert(be_value(p1) * 256 + k1.last() == be_value(p2) * 256 + k2.last());
        assert(be_value(p1) == be_value(p2) && k1.last() == k2.last());
        lemma_be_value_same_len_injective(p1, p2);
        assert forall|i: int| 0 <= i < k1.len() implies k1[i] == k2[i] by {
            if i < k1.len() - 1 {
                assert(k1[i] == p1[i]);
                assert(k2[i] == p2[i]);
            } else {
                assert(k1[i] == k1.last());
                assert(k2[i] == k2.last());
            }
        }
        assert(k1 =~= k2);
    }
}

/// The reading of keys is lossless: two recognized keys that name the same
/// currency are the same key.
pub proof fn lemma_from_key_lossless(k1: Seq<u8>, k2: Seq<u8>)
    requires
        <BigEndianKey as CurrencyIdFromKey<u64>>::spec_from_key(k1) is Some,
        <BigEndianKey as CurrencyIdFromKey<u64>>::spec_from_key(k2) is Some,
        <BigEndianKey as CurrencyIdFromKey<u64>>::spec_from_key(k1) == <BigEndianKey as CurrencyIdFromKey<u64>>::spec_from_key(k2),
    ensures
        k1 == k2,
{
    lemma_be_value_bound(k1);
    lemma_be_value_bound(k2);
    lemma_pow256_le(k1.len(), 8);
    lemma_pow256_le(k2.len(), 8);
    lemma_pow256_eight();
    if k1.len() == k2.len() {
        lemma_be_value_same_len_injective(k1, k2);
    } else if k1.len() < k2.len() {
        lemma_be_value_lower(k2);
        lemma_pow256_le(k1.len(), (k2.len() - 1) as nat);
        assert(false);
    } else {
        lemma_be_value_lower(k1);
        lemma_pow256_le(k2.len(), (k1.len() - 1) as nat);
        assert(false);
    }
}

/// A location-to-account converter: a path consisting of exactly one
/// account-index junction resolves to that index; every other path is
/// unresolvable.
pub struct AccountIndex64Conversion;

impl LocationConversion<u64> for AccountIndex64Conversion {
    /// Single account-index paths resolve, to the index they carry.
    open spec fn spec_from_location(location: Seq<JunctionView>) -> Option<u64> {
        if location.len() == 1 {
            match location[0] {
                JunctionView::AccountIndex64 { index } => Option::Some(index),
                _ => Option::None,
            }
        } else {
            Option::None
        }
    }

    fn from_location(location: &Location) -> (r: Option<u64>) {
        if location.len() != 1 {
            return Option::None;
        }
        match location.last() {
            Option::Some(junction) => match junction {
                Junction::AccountIndex64 { index } => Option::Some(*index),
                _ => Option::None,
            },
            Option::None => Option::None,
        }
    }
}

/// A currency resolver that reads the currency tag off a concrete-fungible
/// descriptor whose location ends in a general-key junction, interpreting
/// the key with the rule `K`.
pub struct CurrencyIdFromGeneralKey<K, CurrencyId>(PhantomData<(K, CurrencyId)>);

impl<K: CurrencyIdFromKey<CurrencyId>, CurrencyId> CurrencyIdConversion<
    CurrencyId,
> for CurrencyIdFromGeneralKey<K, CurrencyId> {
    /// Exactly the descriptors with a general-key tail that `K` recognizes
    /// resolve, to the currency `K` reads from the tail.
    open spec fn spec_from_asset(asset: AssetDescriptorView) -> Option<CurrencyId> {
        if has_general_key_tail(asset) {
            K::spec_from_key(general_key_tail(asset))
        } else {
            Option::None
        }
    }

    fn from_asset(asset: &AssetDescriptor) -> (r: Option<CurrencyId>) {
        match asset {
            AssetDescriptor::ConcreteFungible { id, amount } => {
                match id.last() {
                    Option::Some(junction) => match junction {
                        Junction::GeneralKey(key) => K::from_key(key),
                        _ => Option::None,
                    },
                    Option::None => Option::None,
                }
            },
            _ => Option::None,
        }
    }
}

} // verus!
