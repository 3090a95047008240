//! Whole chains of the linked-state layer: what grows from a header when extrinsics are applied
//! one after another, what holds of every chain grown that way, and a few ready-made chains.

use crate::linked_state::{chain_valid, lemma_chain_valid_step, predecessor, hash, Header};
use vstd::prelude::*;

verus! {

/// The last header of `chain`, or `anchor` where the chain is empty.
pub open spec fn tip(anchor: Header, chain: Seq<Header>) -> Header {
    if chain.len() == 0 {
        anchor
    } else {
        chain.last()
    }
}

/// The chain that grows from `anchor` when the extrinsics are applied in order, each to the
/// child made before it. The anchor itself is not part of the result.
pub open spec fn descend(anchor: Header, extrinsics: Seq<u64>) -> Seq<Header>
    decreases extrinsics.len(),
{
    if extrinsics.len() == 0 {
        Seq::empty()
    } else {
        let front = descend(anchor, extrinsics.drop_last());
        front.push(tip(anchor, front).spec_child(extrinsics.last()))
    }
}

/// Whether every step of [`descend`] can be represented: no height and no state on the way
/// leaves the range of `u64`.
pub open spec fn can_descend(anchor: Header, extrinsics: Seq<u64>) -> bool
    decreases extrinsics.len(),
{
    extrinsics.len() == 0 || {
        &&& can_descend(anchor, extrinsics.drop_last())
        &&& tip(anchor, descend(anchor, extrinsics.drop_last())).can_extend(extrinsics.last())
    }
}

/// Applying one more extrinsic appends the child of the tip.
pub proof fn lemma_descend_push(anchor: Header, extrinsics: Seq<u64>, extrinsic: u64)
    ensures
        descend(anchor, extrinsics.push(extrinsic)) == descend(anchor, extrinsics).push(
            tip(anchor, descend(anchor, extrinsics)).spec_child(extrinsic),
        ),
        can_descend(anchor, extrinsics.push(extrinsic)) <==> can_descend(anchor, extrinsics) && tip(
            anchor,
            descend(anchor, extrinsics),
        ).can_extend(extrinsic),
{
    assert(extrinsics.push(extrinsic).drop_last() =~= extrinsics);
}

/// A grown chain has one header for each extrinsic, and each header carries its extrinsic.
pub proof fn lemma_descend_extrinsics(anchor: Header, extrinsics: Seq<u64>)
    ensures
        descend(anchor, extrinsics).len() == extrinsics.len(),
        forall|i: int|
            0 <= i < extrinsics.len() ==> (#[trigger] descend(anchor, extrinsics)[i]).extrinsic
                == extrinsics[i],
    decreases extrinsics.len(),
{
    if extrinsics.len() > 0 {
        lemma_descend_extrinsics(anchor, extrinsics.drop_last());
    }
}

/// Every chain that is grown from a header by making children verifies against that header,
/// as long as each child could be represented.
pub proof fn lemma_descendants_verify(anchor: Header, extrinsics: Seq<u64>)
    requires
        can_descend(anchor, extrinsics),
    ensures
        chain_valid(anchor, descend(anchor, extrinsics)),
    decreases extrinsics.len(),
{
    let chain = descend(anchor, extrinsics);
    if extrinsics.len() > 0 {
        let front = descend(anchor, extrinsics.drop_last());
        lemma_descendants_verify(anchor, extrinsics.drop_last());
        lemma_descend_extrinsics(anchor, extrinsics.drop_last());
        assert(chain.drop_last() =~= front);
        assert(predecessor(anchor, chain, chain.len() - 1) == tip(anchor, front));
        lemma_chain_valid_step(anchor, chain);
    }
}

/// Two chains grown from one header with different extrinsics differ as whole sequences: they
/// part at the latest where the extrinsics do.
pub proof fn lemma_forks_differ(anchor: Header, left: Seq<u64>, right: Seq<u64>)
    requires
        left != right,
    ensures
        descend(anchor, left) != descend(anchor, right),
{
    lemma_descend_extrinsics(anchor, left);
    lemma_descend_extrinsics(anchor, right);
    if left.len() == right.len() {
        assert(!(left =~= right));
        let i = choose|i: int| 0 <= i < left.len() && left[i] != right[i];
        assert(descend(anchor, left)[i].extrinsic != descend(anchor, right)[i].extrinsic);
    }
}

/// Builds a valid chain: the genesis header, then a child with extrinsic 0 and a grandchild with
/// extrinsic 1. The chain has these three headers whatever `_n` is.
pub fn build_valid_chain(_n: u64) -> (chain: Vec<Header>)
    ensures
        chain@ == seq![Header::spec_genesis()] + descend(Header::spec_genesis(), seq![0, 1]),
        chain_valid(chain@[0], chain@.skip(1)),
{
    let genesis = Header::genesis();
    let mut chain: Vec<Header> = Vec::new();
    chain.push(genesis);
    let mut previous = genesis;
    let ghost mut applied: Seq<u64> = Seq::empty();
    let mut extrinsic: u64 = 0;
    while extrinsic < 2
        invariant
            extrinsic <= 2,
            genesis == Header::spec_genesis(),
            applied == Seq::new(extrinsic as nat, |k: int| k as u64),
            can_descend(genesis, applied),
            chain@ == seq![genesis] + descend(genesis, applied),
            previous == tip(genesis, descend(genesis, applied)),
            previous.height == extrinsic,
            previous.state <= 2 * extrinsic,
        decreases 2 - extrinsic,
    {
        proof {
            lemma_descend_push(genesis, applied, extrinsic);
        }
        let block = previous.child(extrinsic);
        chain.push(block);
        proof {
            applied = applied.push(extrinsic);
        }
        previous = block;
        extrinsic += 1;
    }
    proof {
        assert(applied == seq![0u64, 1u64]);
        lemma_descendants_verify(genesis, applied);
        assert(chain@.skip(1) == descend(genesis, applied));
    }
    chain
}

/// Builds a chain of three headers that starts with the genesis header and is not valid: each
/// later header names its parent and sums its state as it should, but stands two above its
/// parent instead of one. The extrinsics are 0 and 1.
pub fn build_an_invalid_chain() -> (chain: Vec<Header>)
    ensures
        chain@.len() == 3,
        chain@[0] == Header::spec_genesis(),
        chain@[1] == (Header {
            parent: chain@[0].spec_digest(),
            height: 2,
            extrinsic: 0,
            state: 0,
            consensus_digest: (),
        }),
        chain@[2] == (Header {
            parent: chain@[1].spec_digest(),
            height: 4,
            extrinsic: 1,
            state: 1,
            consensus_digest: (),
        }),
        !chain_valid(chain@[0], chain@.skip(1)),
{
    let genesis = Header::genesis();
    let mut chain: Vec<Header> = Vec::new();
    chain.push(genesis);
    let mut previous = genesis;
    let mut extrinsic: u64 = 0;
    while extrinsic < 2
        invariant
            extrinsic <= 2,
            chain@.len() == extrinsic + 1,
            chain@[0] == Header::spec_genesis(),
            previous == chain@.last(),
            previous.height == 2 * extrinsic,
            previous.state <= extrinsic,
            extrinsic >= 1 ==> chain@[1] == (Header {
                parent: chain@[0].spec_digest(),
                height: 2,
                extrinsic: 0,
                state: 0,
                consensus_digest: (),
            }),
            extrinsic >= 2 ==> chain@[2] == (Header {
                parent: chain@[1].spec_digest(),
                height: 4,
                extrinsic: 1,
                state: 1,
                consensus_digest: (),
            }),
        decreases 2 - extrinsic,
    {
        let block = Header {
            parent: hash(&previous),
            height: previous.height + 2,
            extrinsic,
            state: previous.state + extrinsic,
            consensus_digest: (),
        };
        chain.push(block);
        previous = block;
        extrinsic += 1;
    }
    proof {
        let rest = chain@.skip(1);
        assert(!predecessor(chain@[0], rest, 0).precedes(rest[0]));
    }
    chain
}

/// Builds two chains of five headers that fork right after the genesis header, which both start
/// with. The first goes on with the extrinsics 3, 4, 5, 6 and the second with 5, 6, 7, 8.
///
/// Each chain is valid on its own, and the two differ, at their last headers too.
pub fn build_forked_chain() -> (forks: (Vec<Header>, Vec<Header>))
    ensures
        forks.0@ == seq![Header::spec_genesis()] + descend(
            Header::spec_genesis(),
            seq![3, 4, 5, 6],
        ),
        forks.1@ == seq![Header::spec_genesis()] + descend(
            Header::spec_genesis(),
            seq![5, 6, 7, 8],
        ),
        chain_valid(Header::spec_genesis(), forks.0@.skip(1)),
        chain_valid(Header::spec_genesis(), forks.1@.skip(1)),
        forks.0@ != forks.1@,
        forks.0@.last() != forks.1@.last(),
{
    let genesis = Header::genesis();
    let mut first: Vec<Header> = Vec::new();
    let mut second: Vec<Header> = Vec::new();
    first.push(genesis);
    second.push(genesis);
    let ghost mut applied_first: Seq<u64> = Seq::empty();
    let ghost mut applied_second: Seq<u64> = Seq::empty();
    let mut i: usize = 1;
    while i < 5
        invariant
            1 <= i <= 5,
            genesis == Header::spec_genesis(),
            applied_first == Seq::new((i - 1) as nat, |k: int| (k + 3) as u64),
            applied_second == Seq::new((i - 1) as nat, |k: int| (k + 5) as u64),
            can_descend(genesis, applied_first),
            can_descend(genesis, applied_second),
            first@ == seq![genesis] + descend(genesis, applied_first),
            second@ == seq![genesis] + descend(genesis, applied_second),
            first@.len() == i,
            second@.len() == i,
            first@.last().height == i - 1,
            second@.last().height == i - 1,
            first@.last().state <= 8 * i,
            second@.last().state <= 8 * i,
        decreases 5 - i,
    {
        let extrinsic_first = (i + 2) as u64;
        let extrinsic_second = (i + 4) as u64;
        proof {
            lemma_descend_push(genesis, applied_first, extrinsic_first);
            lemma_descend_push(genesis, applied_second, extrinsic_second);
            lemma_descend_extrinsics(genesis, applied_first);
            lemma_descend_extrinsics(genesis, applied_second);
            assert(first@.last() == tip(genesis, descend(genesis, applied_first)));
            assert(second@.last() == tip(genesis, descend(genesis, applied_second)));
        }
        let block_first = first[i - 1].child(extrinsic_first);
        first.push(block_first);
        let block_second = second[i - 1].child(extrinsic_second);
        second.push(block_second);
        proof {
            applied_first = applied_first.push(extrinsic_first);
            applied_second = applied_second.push(extrinsic_second);
        }
        i += 1;
    }
    proof {
        assert(applied_first == seq![3u64, 4u64, 5u64, 6u64]);
        assert(applied_second == seq![5u64, 6u64, 7u64, 8u64]);
        lemma_descendants_verify(genesis, applied_first);
        lemma_descendants_verify(genesis, applied_second);
        lemma_descend_extrinsics(genesis, applied_first);
        lemma_descend_extrinsics(genesis, applied_second);
        assert(first@.skip(1) == descend(genesis, applied_first));
        assert(second@.skip(1) == descend(genesis, applied_second));
        assert(first@.last() == descend(genesis, applied_first)[3]);
        assert(second@.last() == descend(genesis, applied_second)[3]);
    }
    (first, second)
}

} // verus!
