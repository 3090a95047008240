//! Whole chains of the consensus layer: what grows from a header when extrinsics are applied one
//! after another, what holds of every chain under the shared rules and under the rules of the
//! two camps, and a ready-made contentious fork.

use crate::consensus::{
    chain_valid, chain_valid_parity, lemma_chain_valid_step, lemma_first_nonce_exists,
    parity_kept, predecessor, Header, Parity, FORK_HEIGHT,
};
use vstd::prelude::*;

verus! {

/// The last header of `chain`, or `anchor` where the chain is empty.
pub open spec fn tip(anchor: Header, chain: Seq<Header>) -> Header {
    if chain.len() == 0 {
        anchor
    } else {
        chain.last()
    }
}

/// The chain that grows from `anchor` when the extrinsics are applied in order, each to the
/// child made before it. The anchor itself is not part of the result.
pub open spec fn descend(anchor: Header, extrinsics: Seq<u64>) -> Seq<Header>
    decreases extrinsics.len(),
{
    if extrinsics.len() == 0 {
        Seq::empty()
    } else {
        let front = descend(anchor, extrinsics.drop_last());
        front.push(tip(anchor, front).spec_child(extrinsics.last()))
    }
}

/// Whether every step of [`descend`] can be made: no height and no state on the way leaves the
/// range of `u64`, and every child can be sealed.
pub open spec fn can_descend(anchor: Header, extrinsics: Seq<u64>) -> bool
    decreases extrinsics.len(),
{
    extrinsics.len() == 0 || {
        let before = tip(anchor, descend(anchor, extrinsics.drop_last()));
        &&& can_descend(anchor, extrinsics.drop_last())
        &&& before.can_extend(extrinsics.last())
        &&& before.mineable(extrinsics.last())
    }
}

/// What makes a child a child: where one can be made, it may follow its parent, is a valid proof
/// of work, and has the height, the extrinsic and the state that it should.
pub proof fn lemma_child_follows(parent: Header, extrinsic: u64)
    requires
        parent.can_extend(extrinsic),
        parent.mineable(extrinsic),
    ensures
        parent.precedes(parent.spec_child(extrinsic)),
        parent.spec_child(extrinsic).meets_threshold(),
        parent.spec_child(extrinsic).height == parent.height + 1,
        parent.spec_child(extrinsic).extrinsic == extrinsic,
        parent.spec_child(extrinsic).state == parent.state + extrinsic,
{
    lemma_first_nonce_exists(parent.draft(extrinsic));
}

/// Applying one more extrinsic appends the child of the tip.
pub proof fn lemma_descend_push(anchor: Header, extrinsics: Seq<u64>, extrinsic: u64)
    ensures
        descend(anchor, extrinsics.push(extrinsic)) == descend(anchor, extrinsics).push(
            tip(anchor, descend(anchor, extrinsics)).spec_child(extrinsic),
        ),
        can_descend(anchor, extrinsics.push(extrinsic)) <==> {
            &&& can_descend(anchor, extrinsics)
            &&& tip(anchor, descend(anchor, extrinsics)).can_extend(extrinsic)
            &&& tip(anchor, descend(anchor, extrinsics)).mineable(extrinsic)
        },
{
    assert(extrinsics.push(extrinsic).drop_last() =~= extrinsics);
}

/// A grown chain has one header for each extrinsic, and each header carries its extrinsic.
pub proof fn lemma_descend_extrinsics(anchor: Header, extrinsics: Seq<u64>)
    ensures
        descend(anchor, extrinsics).len() == extrinsics.len(),
        forall|i: int|
            0 <= i < extrinsics.len() ==> (#[trigger] descend(anchor, extrinsics)[i]).extrinsic
                == extrinsics[i],
    decreases extrinsics.len(),
{
    if extrinsics.len() > 0 {
        lemma_descend_extrinsics(anchor, extrinsics.drop_last());
    }
}

/// The first steps of a way that can be gone can be gone, and lead to the first headers of the
/// whole chain.
pub proof fn lemma_descend_take(anchor: Header, extrinsics: Seq<u64>, n: int)
    requires
        0 <= n <= extrinsics.len(),
    ensures
        descend(anchor, extrinsics.take(n)) == descend(anchor, extrinsics).take(n),
        can_descend(anchor, extrinsics) ==> can_descend(anchor, extrinsics.take(n)),
    decreases extrinsics.len(),
{
    lemma_descend_extrinsics(anchor, extrinsics);
    if n == extrinsics.len() {
        assert(extrinsics.take(n) =~= extrinsics);
        assert(descend(anchor, extrinsics).take(n) =~= descend(anchor, extrinsics));
    } else {
        let front = extrinsics.drop_last();
        lemma_descend_take(anchor, front, n);
        lemma_descend_extrinsics(anchor, front);
        assert(front.take(n) =~= extrinsics.take(n));
        assert(descend(anchor, front).take(n) =~= descend(anchor, extrinsics).take(n));
    }
}

/// Every chain that is grown from a header by making children verifies against that header
/// under the shared rules, as long as each child could be made.
pub proof fn lemma_descendants_verify(anchor: Header, extrinsics: Seq<u64>)
    requires
        can_descend(anchor, extrinsics),
    ensures
        chain_valid(anchor, descend(anchor, extrinsics)),
    decreases extrinsics.len(),
{
    let chain = descend(anchor, extrinsics);
    if extrinsics.len() > 0 {
        let front = descend(anchor, extrinsics.drop_last());
        lemma_descendants_verify(anchor, extrinsics.drop_last());
        lemma_descend_extrinsics(anchor, extrinsics.drop_last());
        lemma_child_follows(tip(anchor, front), extrinsics.last());
        assert(chain.drop_last() =~= front);
        assert(predecessor(anchor, chain, chain.len() - 1) == tip(anchor, front));
        lemma_chain_valid_step(anchor, chain);
    }
}

/// Two chains grown from one header with different extrinsics differ as whole sequences: they
/// part at the latest where the extrinsics do.
pub proof fn lemma_forks_differ(anchor: Header, left: Seq<u64>, right: Seq<u64>)
    requires
        left != right,
    ensures
        descend(anchor, left) != descend(anchor, right),
{
    lemma_descend_extrinsics(anchor, left);
    lemma_descend_extrinsics(anchor, right);
    if left.len() == right.len() {
        assert(!(left =~= right));
        let i = choose|i: int| 0 <= i < left.len() && left[i] != right[i];
        assert(descend(anchor, left)[i].extrinsic != descend(anchor, right)[i].extrinsic);
    }
}

/// Along a valid chain the heights count up from the anchor's.
pub proof fn lemma_valid_heights(anchor: Header, chain: Seq<Header>)
    requires
        chain_valid(anchor, chain),
    ensures
        forall|i: int| 0 <= i < chain.len() ==> (#[trigger] chain[i]).height == anchor.height + i + 1,
    decreases chain.len(),
{
    if chain.len() > 0 {
        let front = chain.drop_last();
        lemma_chain_valid_step(anchor, chain);
        lemma_valid_heights(anchor, front);
        assert forall|i: int| 0 <= i < chain.len() implies (#[trigger] chain[i]).height
            == anchor.height + i + 1 by {
            if i < front.len() {
                assert(front[i].height == anchor.height + i + 1);
            } else if i > 0 {
                assert(front[i - 1].height == anchor.height + i);
            }
        }
    }
}

/// A chain that is valid for a camp is valid under the shared rules.
pub proof fn lemma_camp_rule_refines_shared(anchor: Header, chain: Seq<Header>, parity: Parity)
    requires
        chain_valid_parity(anchor, chain, parity),
    ensures
        chain_valid(anchor, chain),
{
}

/// Once a chain has a header above the fork height, the two camps cannot both accept it.
pub proof fn lemma_camps_exclusive(anchor: Header, chain: Seq<Header>, i: int)
    requires
        0 <= i < chain.len(),
        chain[i].height > FORK_HEIGHT,
    ensures
        !(chain_valid_parity(anchor, chain, Parity::Even) && chain_valid_parity(
            anchor,
            chain,
            Parity::Odd,
        )),
{
    if parity_kept(anchor, chain, Parity::Even) && parity_kept(anchor, chain, Parity::Odd) {
        assert(chain[i].obeys(Parity::Even));
        assert(chain[i].obeys(Parity::Odd));
    }
}

/// The parity rules do not bind at the fork height: a chain that is valid under the shared rules
/// and ends at the fork height or below is valid for both camps, whatever its states are.
pub proof fn lemma_fork_height_exempt(anchor: Header, chain: Seq<Header>, parity: Parity)
    requires
        chain_valid(anchor, chain),
        tip(anchor, chain).height <= FORK_HEIGHT,
    ensures
        chain_valid_parity(anchor, chain, parity),
{
    lemma_valid_heights(anchor, chain);
    if chain.len() > 0 {
        assert(chain[chain.len() - 1].height == anchor.height + chain.len());
    }
    assert forall|i: int| 0 <= i < chain.len() implies (#[trigger] chain[i]).obeys(parity) by {
        assert(chain[i].height == anchor.height + i + 1);
    }
}

/// The parity rules bind right above the fork height: a header one above it whose state has the
/// wrong parity makes the whole chain invalid for the camp.
pub proof fn lemma_above_fork_height_bound(
    anchor: Header,
    chain: Seq<Header>,
    i: int,
    parity: Parity,
)
    requires
        0 <= i < chain.len(),
        chain[i].height == FORK_HEIGHT + 1,
        !chain[i].has_parity(parity),
    ensures
        !chain_valid_parity(anchor, chain, parity),
{
    if parity_kept(anchor, chain, parity) {
        assert(chain[i].obeys(parity));
    }
}

/// A valid chain followed by a chain that is valid from its tip is valid as a whole.
pub proof fn lemma_chain_valid_concat(anchor: Header, front: Seq<Header>, back: Seq<Header>)
    requires
        chain_valid(anchor, front),
        chain_valid(tip(anchor, front), back),
    ensures
        chain_valid(anchor, front + back),
{
    let whole = front + back;
    assert forall|i: int| 0 <= i < whole.len() implies (#[trigger] predecessor(
        anchor,
        whole,
        i,
    )).precedes(whole[i]) && whole[i].meets_threshold() by {
        if i < front.len() {
            assert(predecessor(anchor, front, i).precedes(front[i]));
        } else {
            let k = i - front.len();
            assert(predecessor(tip(anchor, front), back, k).precedes(back[k]));
        }
    }
}

/// The smallest extrinsic from `start` on that brings `state` to the given parity.
fn steer(state: u64, start: u64, parity: Parity) -> (extrinsic: u64)
    requires
        state + start + 1 <= u64::MAX,
    ensures
        (state + start) % 2 == parity.remainder() ==> extrinsic == start,
        (state + start) % 2 != parity.remainder() ==> extrinsic == start + 1,
{
    let wanted: u64 = match parity {
        Parity::Even => 0,
        Parity::Odd => 1,
    };
    if (state + start) % 2 == wanted {
        start
    } else {
        start + 1
    }
}

/// Builds two chains that share a prefix and then fork over the parity of the state. Returned
/// are the prefix, which starts with the genesis header, then the even suffix and the odd
/// suffix, neither of which overlaps with the prefix.
///
/// The prefix is the genesis header and its child with extrinsic 1, so the suffixes start at the
/// fork height. Each suffix has four headers: for the i-th, the smallest extrinsic from i on is
/// taken that gives the state the parity of the suffix. That makes the extrinsics 1, 2, 4, 4 on
/// the even side and 2, 2, 4, 4 on the odd side.
///
/// Prefix and suffix together are valid under the shared rules on either side, the even side is
/// valid for the even camp alone and the odd side for the odd camp alone.
///
/// Nothing is returned where one of the nine children cannot be sealed.
pub fn build_contentious_forked_chain() -> (forks: Option<
    (Vec<Header>, Vec<Header>, Vec<Header>),
>)
    ensures
        forks.is_some() <==> {
            &&& can_descend(Header::spec_genesis(), seq![1])
            &&& can_descend(Header::spec_genesis().spec_child(1), seq![1, 2, 4, 4])
            &&& can_descend(Header::spec_genesis().spec_child(1), seq![2, 2, 4, 4])
        },
        forks matches Some((prefix, even, odd)) ==> {
            let genesis = Header::spec_genesis();
            let even_side = prefix@.skip(1) + even@;
            let odd_side = prefix@.skip(1) + odd@;
            &&& prefix@ == seq![genesis, genesis.spec_child(1)]
            &&& even@ == descend(genesis.spec_child(1), seq![1, 2, 4, 4])
            &&& odd@ == descend(genesis.spec_child(1), seq![2, 2, 4, 4])
            &&& chain_valid(genesis, even_side)
            &&& chain_valid(genesis, odd_side)
            &&& chain_valid_parity(genesis, even_side, Parity::Even)
            &&& !chain_valid_parity(genesis, odd_side, Parity::Even)
            &&& !chain_valid_parity(genesis, even_side, Parity::Odd)
            &&& chain_valid_parity(genesis, odd_side, Parity::Odd)
        },
{
    let ghost even_way: Seq<u64> = seq![1, 2, 4, 4];
    let ghost odd_way: Seq<u64> = seq![2, 2, 4, 4];
    let genesis = Header::genesis();
    proof {
        lemma_descend_push(genesis, Seq::empty(), 1);
        assert(Seq::<u64>::empty().push(1) =~= seq![1u64]);
    }
    let genesis_child = match genesis.try_child(1) {
        Some(block) => block,
        None => {
            return None;
        },
    };
    let mut prefix: Vec<Header> = Vec::new();
    prefix.push(genesis);
    prefix.push(genesis_child);
    let mut even: Vec<Header> = Vec::new();
    let mut odd: Vec<Header> = Vec::new();
    let mut even_tip = genesis_child;
    let mut odd_tip = genesis_child;
    let mut i: u64 = 1;
    while i < 5
        invariant
            1 <= i <= 5,
            even_way == seq![1u64, 2u64, 4u64, 4u64],
            odd_way == seq![2u64, 2u64, 4u64, 4u64],
            genesis_child == Header::spec_genesis().spec_child(1),
            genesis_child.height == 1,
            genesis_child.state == 1,
            even@ == descend(genesis_child, even_way.take(i - 1)),
            odd@ == descend(genesis_child, odd_way.take(i - 1)),
            can_descend(genesis_child, even_way.take(i - 1)),
            can_descend(genesis_child, odd_way.take(i - 1)),
            even@.len() == i - 1,
            odd@.len() == i - 1,
            even_tip == tip(genesis_child, even@),
            odd_tip == tip(genesis_child, odd@),
            even_tip.height == i,
            odd_tip.height == i,
            even_tip.state <= 8 * i,
            odd_tip.state <= 8 * i,
            i >= 2 ==> even_tip.state % 2 == 0,
            odd_tip.state % 2 == 1,
            chain_valid(genesis_child, even@),
            chain_valid(genesis_child, odd@),
            forall|k: int| 0 <= k < even@.len() ==> (#[trigger] even@[k]).obeys(Parity::Even),
            forall|k: int| 0 <= k < odd@.len() ==> (#[trigger] odd@[k]).obeys(Parity::Odd),
            i >= 3 ==> !even@[1].obeys(Parity::Odd),
            i >= 3 ==> !odd@[1].obeys(Parity::Even),
        decreases 5 - i,
    {
        let odd_extrinsic = steer(odd_tip.state, i, Parity::Odd);
        let even_extrinsic = steer(even_tip.state, i, Parity::Even);
        proof {
            assert(odd_extrinsic == odd_way[i - 1]);
            assert(even_extrinsic == even_way[i - 1]);
            assert(odd_way.take(i as int) =~= odd_way.take(i - 1).push(odd_extrinsic));
            assert(even_way.take(i as int) =~= even_way.take(i - 1).push(even_extrinsic));
            lemma_descend_push(genesis_child, odd_way.take(i - 1), odd_extrinsic);
            lemma_descend_push(genesis_child, even_way.take(i - 1), even_extrinsic);
            lemma_descend_take(genesis_child, odd_way, i as int);
            lemma_descend_take(genesis_child, even_way, i as int);
        }
        let odd_block = match odd_tip.try_child(odd_extrinsic) {
            Some(block) => block,
            None => {
                return None;
            },
        };
        let even_block = match even_tip.try_child(even_extrinsic) {
            Some(block) => block,
            None => {
                return None;
            },
        };
        odd.push(odd_block);
        even.push(even_block);
        proof {
            lemma_chain_valid_step(genesis_child, odd@);
            lemma_chain_valid_step(genesis_child, even@);
            assert(odd@.drop_last() =~= descend(genesis_child, odd_way.take(i - 1)));
            assert(even@.drop_last() =~= descend(genesis_child, even_way.take(i - 1)));
        }
        odd_tip = odd_block;
        even_tip = even_block;
        i += 1;
    }
    proof {
        assert(even_way.take(4) =~= even_way);
        assert(odd_way.take(4) =~= odd_way);
        let front = prefix@.skip(1);
        assert(front =~= seq![genesis_child]);
        assert(predecessor(genesis, front, 0).precedes(front[0]));
        assert(chain_valid(genesis, front));
        lemma_chain_valid_concat(genesis, front, even@);
        lemma_chain_valid_concat(genesis, front, odd@);
        let even_side = front + even@;
        let odd_side = front + odd@;
        assert forall|k: int| 0 <= k < even_side.len() implies (#[trigger] even_side[k]).obeys(
            Parity::Even,
        ) by {
            if k >= 1 {
                assert(even@[k - 1].obeys(Parity::Even));
            }
        }
        assert forall|k: int| 0 <= k < odd_side.len() implies (#[trigger] odd_side[k]).obeys(
            Parity::Odd,
        ) by {
            if k >= 1 {
                assert(odd@[k - 1].obeys(Parity::Odd));
            }
        }
        assert(even_side[2] == even@[1]);
        assert(odd_side[2] == odd@[1]);
        assert(!even_side[2].obeys(Parity::Odd));
        assert(!odd_side[2].obeys(Parity::Even));
    }
    Some((prefix, even, odd))
}

} // verus!
