//! Locations: ordered paths of junction segments describing an asset's
//! origin or ownership chain. The matcher inspects the last junction of a
//! location; the account converter inspects the whole path.

use vstd::prelude::*;

verus! {

/// One segment of a location path.
#[derive(Debug, PartialEq, Eq)]
pub enum Junction {
    /// The consensus system one level up from the current one.
    Parent,
    /// A sibling or child chain, by numeric identifier.
    Parachain(u32),
    /// An account on the current system, by 64-bit index.
    AccountIndex64 { index: u64 },
    /// An opaque general-purpose key segment; the matcher reads a currency
    /// tag out of this variant.
    GeneralKey(Vec<u8>),
}

/// The mathematical model of a junction: the same shape with the byte
/// vector abstracted to a sequence.
pub enum JunctionView {
    Parent,
    Parachain(u32),
    AccountIndex64 { index: u64 },
    GeneralKey(Seq<u8>),
}

impl View for Junction {
    type V = JunctionView;

    open spec fn view(&self) -> JunctionView {
        match self {
            Junction::Parent => JunctionView::Parent,
            Junction::Parachain(id) => JunctionView::Parachain(*id),
            Junction::AccountIndex64 { index } => JunctionView::AccountIndex64 { index: *index },
            Junction::GeneralKey(key) => JunctionView::GeneralKey(key@),
        }
    }
}

impl Junction {
    /// Builds an identical junction; the copy's model equals the
    /// original's.
    pub fn duplicate(&self) -> (r: Junction)
        ensures
            r@ == self@,
    {
        match self {
            Junction::Parent => Junction::Parent,
            Junction::Parachain(id) => Junction::Parachain(*id),
            Junction::AccountIndex64 { index } => Junction::AccountIndex64 { index: *index },
            Junction::GeneralKey(key) => {
                let copy = clone_bytes(key);
                Junction::GeneralKey(copy)
            },
        }
    }
}

/// Byte-for-byte copy of an opaque byte sequence.
pub(crate) fn clone_bytes(bytes: &Vec<u8>) -> (r: Vec<u8>)
    ensures
        r@ == bytes@,
{
    let mut out: Vec<u8> = Vec::new();
    let mut i: usize = 0;
    while i < bytes.len()
        invariant
            i <= bytes@.len(),
            out@ == bytes@.take(i as int),
        decreases bytes@.len() - i,
    {
        out.push(bytes[i]);
        i = i + 1;
        proof {
            assert(out@ =~= bytes@.take(i as int));
        }
    }
    proof {
        assert(bytes@.take(bytes@.len() as int) =~= bytes@);
    }
    out
}

/// An ordered path of junctions. Order is significant: the last segment is
/// the position the matcher inspects.
#[derive(Debug, PartialEq, Eq)]
pub struct Location {
    junctions: Vec<Junction>,
}

impl View for Location {
    type V = Seq<JunctionView>;

    closed spec fn view(&self) -> Seq<JunctionView> {
        self.junctions@.map_values(|j: Junction| j@)
    }
}

impl Location {
    /// The empty path.
    pub fn new() -> (r: Location)
        ensures
            r@ == Seq::<JunctionView>::empty(),
    {
        let r = Location { junctions: Vec::new() };
        proof {
            assert(r@ =~= Seq::<JunctionView>::empty());
        }
        r
    }

    /// Builds a path from its segments, in order.
    pub fn from_junctions(junctions: Vec<Junction>) -> (r: Location)
        ensures
            r@ == junctions@.map_values(|j: Junction| j@),
    {
        Location { junctions }
    }

    /// How many segments the path has.
    pub fn len(&self) -> (r: usize)
        ensures
            r == self@.len(),
    {
        self.junctions.len()
    }

    /// The last segment of the path, if any: the position the matcher
    /// inspects.
    pub fn last(&self) -> (r: Option<&Junction>)
        ensures
            match r {
                Option::Some(j) => self@.len() > 0 && j@ == self@.last(),
                Option::None => self@.len() == 0,
            },
    {
        if self.junctions.len() == 0 {
            Option::None
        } else {
            Option::Some(&self.junctions[self.junctions.len() - 1])
        }
    }

    /// Builds an identical path; the copy's model equals the original's.
    pub fn duplicate(&self) -> (r: Location)
        ensures
            r@ == self@,
    {
        let mut out: Vec<Junction> = Vec::new();
        let mut i: usize = 0;
        while i < self.junctions.len()
            invariant
                i <= self.junctions@.len(),
                out@.len() == i,
                forall|k: int| 0 <= k < i ==> (#[trigger] out@[k])@ == self.junctions@[k]@,
            decreases self.junctions@.len() - i,
        {
            out.push(self.junctions[i].duplicate());
            i = i + 1;
        }
        proof {
            assert(out@.map_values(|j: Junction| j@) =~= self@);
        }
        Location { junctions: out }
    }
}

} // verus!
