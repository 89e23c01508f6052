//! Asset descriptors: tagged descriptions of an asset. The matcher and the
//! adapter only do real work on the concrete-fungible variant, which carries
//! a location and a 128-bit amount; the other variants exist so that a
//! descriptor of the wrong shape is representable and is rejected.

use vstd::prelude::*;

use crate::location::clone_bytes;
use crate::location::JunctionView;
use crate::location::Location;

verus! {

/// A tagged description of an asset.
#[derive(Debug, PartialEq, Eq)]
pub enum AssetDescriptor {
    /// A fungible asset identified by the location of its origin, carrying
    /// a 128-bit amount.
    ConcreteFungible { id: Location, amount: u128 },
    /// A fungible asset identified by an opaque name rather than a
    /// location.
    AbstractFungible { id: Vec<u8>, amount: u128 },
    /// A non-fungible asset identified by the location of its class and an
    /// instance number.
    ConcreteNonFungible { class: Location, instance: u128 },
}

/// The mathematical model of an asset descriptor.
pub enum AssetDescriptorView {
    ConcreteFungible { id: Seq<JunctionView>, amount: u128 },
    AbstractFungible { id: Seq<u8>, amount: u128 },
    ConcreteNonFungible { class: Seq<JunctionView>, instance: u128 },
}

impl View for AssetDescriptor {
    type V = AssetDescriptorView;

    open spec fn view(&self) -> AssetDescriptorView {
        match self {
            AssetDescriptor::ConcreteFungible { id, amount } => AssetDescriptorView::ConcreteFungible {
                id: id@,
                amount: *amount,
            },
            AssetDescriptor::AbstractFungible { id, amount } => AssetDescriptorView::AbstractFungible {
                id: id@,
                amount: *amount,
            },
            AssetDescriptor::ConcreteNonFungible { class, instance } => AssetDescriptorView::ConcreteNonFungible {
                class: class@,
                instance: *instance,
            },
        }
    }
}

impl AssetDescriptor {
    /// Builds an identical descriptor; the copy's model equals the
    /// original's. The withdraw operation returns such a copy of its
    /// argument.
    pub fn duplicate(&self) -> (r: AssetDescriptor)
        ensures
            r@ == self@,
    {
        match self {
            AssetDescriptor::ConcreteFungible { id, amount } => AssetDescriptor::ConcreteFungible {
                id: id.duplicate(),
                amount: *amount,
            },
            AssetDescriptor::AbstractFungible { id, amount } => AssetDescriptor::AbstractFungible {
                id: clone_bytes(id),
                amount: *amount,
            },
            AssetDescriptor::ConcreteNonFungible { class, instance } => AssetDescriptor::ConcreteNonFungible {
                class: class.duplicate(),
                instance: *instance,
            },
        }
    }
}

} // verus!
