//! Headers that track state: each header names its parent by digest, counts its height, carries
//! one extrinsic and records the state that the extrinsic leads to. The chain works as an adder:
//! the state starts at zero and every header adds its extrinsic to it.
//!
//! There is no consensus at this layer, so the consensus digest of a header is the unit value.

use crate::digest::{absorb, words_digest};
use std::collections::hash_map::DefaultHasher;
use std::hash::Hasher;
use vstd::prelude::*;

verus! {

/// A header of the chain. The extrinsic and the state stand in it directly, in the place of the
/// roots of larger data sets.
#[derive(Clone, Copy, Debug, PartialEq, Eq, Hash)]
pub struct Header {
    /// Digest of the header before this one; zero for the genesis header. Zero is not set apart
    /// from the digests: a header whose digest happened to be zero would be named the same way.
    pub parent: u64,
    /// Number of headers between this one and the genesis header, which has height zero.
    pub height: u64,
    /// The amount that this header adds to the state.
    pub extrinsic: u64,
    /// The sum of all extrinsics up to and including this header's.
    pub state: u64,
    /// Nothing yet: this layer has no consensus.
    pub consensus_digest: (),
}

impl Header {
    /// The digest of the header: that of its four words in the order of the fields. The unit
    /// field adds nothing.
    pub open spec fn spec_digest(self) -> u64 {
        words_digest(seq![self.parent, self.height, self.extrinsic, self.state])
    }

    /// The genesis header as a specification value.
    pub open spec fn spec_genesis() -> Header {
        Header { parent: 0, height: 0, extrinsic: 0, state: 0, consensus_digest: () }
    }

    /// Whether a child with this extrinsic can be represented: neither the height nor the state
    /// leaves the range of `u64`.
    pub open spec fn can_extend(self, extrinsic: u64) -> bool {
        self.height < u64::MAX && self.state + extrinsic <= u64::MAX
    }

    /// The child of this header that carries `extrinsic`. Meaningful where
    /// [`can_extend`](Header::can_extend) holds.
    pub open spec fn spec_child(self, extrinsic: u64) -> Header {
        Header {
            parent: self.spec_digest(),
            height: (self.height + 1) as u64,
            extrinsic,
            state: (self.state + extrinsic) as u64,
            consensus_digest: (),
        }
    }

    /// Whether `next` may directly follow this header: it names this header as its parent, is one
    /// higher, and its state is this header's state plus its own extrinsic. The sums are those of
    /// mathematical integers: no header follows where they would leave the range of `u64`.
    pub open spec fn precedes(self, next: Header) -> bool {
        &&& next.parent == self.spec_digest()
        &&& next.height == self.height + 1
        &&& next.extrinsic + self.state == next.state
    }
}

/// The header that `chain[i]` has to follow when `chain` is verified from `anchor`: the anchor
/// for the first header, else the header just before.
pub open spec fn predecessor(anchor: Header, chain: Seq<Header>, i: int) -> Header {
    if i == 0 {
        anchor
    } else {
        chain[i - 1]
    }
}

/// Whether `chain` is a valid continuation of `anchor`: every header in it may follow its
/// predecessor. The anchor itself is trusted and not examined.
pub open spec fn chain_valid(anchor: Header, chain: Seq<Header>) -> bool {
    forall|i: int| 0 <= i < chain.len() ==> (#[trigger] predecessor(anchor, chain, i)).precedes(chain[i])
}

/// Computes the digest of a header.
pub fn hash(header: &Header) -> (d: u64)
    ensures
        d == header.spec_digest(),
{
    let mut hasher = DefaultHasher::new();
    absorb(&mut hasher, header.parent);
    absorb(&mut hasher, header.height);
    absorb(&mut hasher, header.extrinsic);
    absorb(&mut hasher, header.state);
    assert(hasher@ =~= crate::digest::word_writes(
        seq![header.parent, header.height, header.extrinsic, header.state],
    ));
    hasher.finish()
}

impl Header {
    /// Returns the genesis header: no parent, height zero, no extrinsic, state zero.
    pub fn genesis() -> (g: Header)
        ensures
            g == Header::spec_genesis(),
            g.parent == 0,
            g.height == 0,
            g.extrinsic == 0,
            g.state == 0,
            g.consensus_digest == (),
    {
        Header { parent: 0, height: 0, extrinsic: 0, state: 0, consensus_digest: () }
    }

    /// Creates the child of this header that carries `extrinsic`.
    ///
    /// The height and the state of the child must fit in a `u64`; [`try_child`](Header::try_child)
    /// tests that at run time.
    pub fn child(&self, extrinsic: u64) -> (c: Header)
        requires
            self.can_extend(extrinsic),
        ensures
            c == self.spec_child(extrinsic),
            c.parent == self.spec_digest(),
            c.height == self.height + 1,
            c.extrinsic == extrinsic,
            c.state == self.state + extrinsic,
            self.precedes(c),
    {
        Header {
            parent: hash(self),
            height: self.height + 1,
            extrinsic,
            state: self.state + extrinsic,
            consensus_digest: (),
        }
    }

    /// Creates the child of this header that carries `extrinsic`, or nothing where the child's
    /// height or state would overflow.
    pub fn try_child(&self, extrinsic: u64) -> (r: Option<Header>)
        ensures
            r.is_some() <==> self.can_extend(extrinsic),
            r matches Some(c) ==> c == self.spec_child(extrinsic) && self.precedes(c),
    {
        match (self.height.checked_add(1), self.state.checked_add(extrinsic)) {
            (Some(_), Some(_)) => Some(self.child(extrinsic)),
            _ => None,
        }
    }

    /// Tells whether `next` may directly follow this header.
    fn is_followed_by(&self, next: &Header) -> (ok: bool)
        ensures
            ok == self.precedes(*next),
    {
        let linked = hash(self) == next.parent;
        let counted = self.height < u64::MAX && next.height == self.height + 1;
        let summed = match next.extrinsic.checked_add(self.state) {
            Some(sum) => sum == next.state,
            None => false,
        };
        linked && counted && summed
    }

    /// Verifies that `chain` is a valid continuation of this header, which is taken as valid.
    ///
    /// Every header of the chain is examined, also after one has failed. An empty chain is
    /// valid.
    pub fn verify_sub_chain(&self, chain: &[Header]) -> (ok: bool)
        ensures
            ok == chain_valid(*self, chain@),
            chain@.len() == 0 ==> ok,
    {
        let mut verifiable = true;
        let mut previous = *self;
        let mut i: usize = 0;
        while i < chain.len()
            invariant
                i <= chain.len(),
                previous == predecessor(*self, chain@, i as int),
                verifiable == chain_valid(*self, chain@.take(i as int)),
            decreases chain.len() - i,
        {
            let header = chain[i];
            if !previous.is_followed_by(&header) {
                verifiable = false;
            }
            proof {
                lemma_chain_valid_step(*self, chain@.take(i + 1));
                assert(chain@.take(i + 1).drop_last() =~= chain@.take(i as int));
            }
            previous = header;
            i += 1;
        }
        assert(chain@.take(i as int) =~= chain@);
        verifiable
    }
}

/// A chain with a last header is valid exactly when the chain before that header is valid and
/// the last header may follow its predecessor.
pub proof fn lemma_chain_valid_step(anchor: Header, chain: Seq<Header>)
    requires
        chain.len() > 0,
    ensures
        chain_valid(anchor, chain) <==> chain_valid(anchor, chain.drop_last()) && predecessor(
            anchor,
            chain,
            chain.len() - 1,
        ).precedes(chain.last()),
{
    let front = chain.drop_last();
    if chain_valid(anchor, chain) {
        assert forall|i: int| 0 <= i < front.len() implies (#[trigger] predecessor(
            anchor,
            front,
            i,
        )).precedes(front[i]) by {
            assert(predecessor(anchor, chain, i) == predecessor(anchor, front, i));
        }
    }
    if chain_valid(anchor, front) && predecessor(anchor, chain, chain.len() - 1).precedes(
        chain.last(),
    ) {
        assert forall|i: int| 0 <= i < chain.len() implies (#[trigger] predecessor(
            anchor,
            chain,
            i,
        )).precedes(chain[i]) by {
            if i < front.len() {
                assert(predecessor(anchor, front, i).precedes(front[i]));
            }
        }
    }
}

} // verus!
