//! Headers under consensus rules. Two kinds of rule are layered on the linked-state chain:
//!
//! 1. A rule that throttles authoring: a simple proof of work. The consensus digest of a header
//!    is a nonce, searched so that the digest of the whole header falls below [`THRESHOLD`].
//! 2. Two rival political rules. From the height after [`FORK_HEIGHT`] on, one camp accepts only
//!    headers with an even state and the other only headers with an odd state.

use crate::digest::{absorb, words_digest};
use std::collections::hash_map::DefaultHasher;
use std::hash::Hasher;
use vstd::pervasive::unreached;
use vstd::prelude::*;

verus! {

/// The digest of every header but the genesis header has to stay below this bound. One digest in
/// a hundred does.
pub const THRESHOLD: u64 = u64::MAX / 100;

/// The height of the last header on which the two camps agree. The parity rules bind the headers
/// above it.
pub const FORK_HEIGHT: u64 = 2;

/// A header of the chain, with a nonce as its consensus digest.
#[derive(Clone, Copy, Debug, PartialEq, Eq, Structural, Hash)]
pub struct Header {
    /// Digest of the header before this one; zero for the genesis header. Zero is not set apart
    /// from the digests: a header whose digest happened to be zero would be named the same way.
    pub parent: u64,
    /// Number of headers between this one and the genesis header, which has height zero.
    pub height: u64,
    /// The amount that this header adds to the state.
    pub extrinsic: u64,
    /// The sum of all extrinsics up to and including this header's.
    pub state: u64,
    /// The nonce that brings the digest of the header below the threshold.
    pub consensus_digest: u64,
}

/// The parity that a camp demands of the state.
#[derive(Clone, Copy, Debug, PartialEq, Eq, Structural)]
pub enum Parity {
    Even,
    Odd,
}

impl Parity {
    /// What a state of this parity leaves when divided by two.
    pub open spec fn remainder(self) -> int {
        match self {
            Parity::Even => 0,
            Parity::Odd => 1,
        }
    }
}

impl Header {
    /// The digest of the header: that of its five words in the order of the fields.
    pub open spec fn spec_digest(self) -> u64 {
        words_digest(
            seq![self.parent, self.height, self.extrinsic, self.state, self.consensus_digest],
        )
    }

    /// The genesis header as a specification value.
    pub open spec fn spec_genesis() -> Header {
        Header { parent: 0, height: 0, extrinsic: 0, state: 0, consensus_digest: 0 }
    }

    /// Whether the header is a valid proof of work: its digest is below the threshold.
    pub open spec fn meets_threshold(self) -> bool {
        self.spec_digest() < THRESHOLD
    }

    /// This header with another nonce.
    pub open spec fn with_nonce(self, nonce: u64) -> Header {
        Header { consensus_digest: nonce, ..self }
    }

    /// Whether some nonce makes this header, all else unchanged, a valid proof of work.
    pub open spec fn sealable(self) -> bool {
        exists|nonce: u64| (#[trigger] self.with_nonce(nonce)).meets_threshold()
    }

    /// Whether some nonce up to `last` makes this header, all else unchanged, a valid proof of
    /// work.
    pub open spec fn sealable_up_to(self, last: u64) -> bool {
        exists|nonce: u64| nonce <= last && (#[trigger] self.with_nonce(nonce)).meets_threshold()
    }

    /// Whether `nonce` is the smallest nonce that makes this header a valid proof of work.
    pub open spec fn is_first_nonce(self, nonce: u64) -> bool {
        &&& self.with_nonce(nonce).meets_threshold()
        &&& forall|lower: u64|
            lower < nonce ==> !(#[trigger] self.with_nonce(lower)).meets_threshold()
    }

    /// The smallest nonce that makes this header a valid proof of work. Meaningful where the
    /// header is [`sealable`](Header::sealable).
    pub open spec fn first_nonce(self) -> u64 {
        choose|nonce: u64| self.is_first_nonce(nonce)
    }

    /// Whether a child with this extrinsic can be represented: neither the height nor the state
    /// leaves the range of `u64`.
    pub open spec fn can_extend(self, extrinsic: u64) -> bool {
        self.height < u64::MAX && self.state + extrinsic <= u64::MAX
    }

    /// The child that carries `extrinsic`, before the search for its nonce: the nonce is zero.
    pub open spec fn draft(self, extrinsic: u64) -> Header {
        Header {
            parent: self.spec_digest(),
            height: (self.height + 1) as u64,
            extrinsic,
            state: (self.state + extrinsic) as u64,
            consensus_digest: 0,
        }
    }

    /// Whether the search for the nonce of the child that carries `extrinsic` finds one.
    pub open spec fn mineable(self, extrinsic: u64) -> bool {
        self.draft(extrinsic).sealable()
    }

    /// The child of this header that carries `extrinsic`: the draft with the smallest nonce that
    /// makes it a valid proof of work. Meaningful where [`can_extend`](Header::can_extend) and
    /// [`mineable`](Header::mineable) hold.
    pub open spec fn spec_child(self, extrinsic: u64) -> Header {
        self.draft(extrinsic).with_nonce(self.draft(extrinsic).first_nonce())
    }

    /// Whether `next` may directly follow this header by the rules of linkage: it names this
    /// header as its parent, is one higher, and its state is this header's state plus its own
    /// extrinsic. The sums are those of mathematical integers: no header follows where they
    /// would leave the range of `u64`.
    pub open spec fn precedes(self, next: Header) -> bool {
        &&& next.parent == self.spec_digest()
        &&& next.height == self.height + 1
        &&& next.extrinsic + self.state == next.state
    }

    /// Whether the state of the header has the given parity.
    pub open spec fn has_parity(self, parity: Parity) -> bool {
        self.state % 2 == parity.remainder()
    }

    /// Whether the header is acceptable to the camp of the given parity: it stands at the fork
    /// height or below, or its state has the parity.
    pub open spec fn obeys(self, parity: Parity) -> bool {
        self.height > FORK_HEIGHT ==> self.has_parity(parity)
    }
}

/// The header that `chain[i]` has to follow when `chain` is verified from `anchor`: the anchor
/// for the first header, else the header just before.
pub open spec fn predecessor(anchor: Header, chain: Seq<Header>, i: int) -> Header {
    if i == 0 {
        anchor
    } else {
        chain[i - 1]
    }
}

/// Whether `chain` is a valid continuation of `anchor` by the rules that both camps share: every
/// header in it may follow its predecessor and is a valid proof of work. The anchor itself is
/// trusted and not examined.
pub open spec fn chain_valid(anchor: Header, chain: Seq<Header>) -> bool {
    forall|i: int|
        0 <= i < chain.len() ==> (#[trigger] predecessor(anchor, chain, i)).precedes(chain[i])
            && chain[i].meets_threshold()
}

/// Whether the anchor and every header of the chain are acceptable to the camp of the given
/// parity.
pub open spec fn parity_kept(anchor: Header, chain: Seq<Header>, parity: Parity) -> bool {
    &&& anchor.obeys(parity)
    &&& forall|i: int| 0 <= i < chain.len() ==> (#[trigger] chain[i]).obeys(parity)
}

/// Whether `chain` is a valid continuation of `anchor` for the camp of the given parity: valid by
/// the shared rules, with the parity kept above the fork height.
pub open spec fn chain_valid_parity(anchor: Header, chain: Seq<Header>, parity: Parity) -> bool {
    chain_valid(anchor, chain) && parity_kept(anchor, chain, parity)
}

/// A sealable header has a smallest nonce that seals it.
pub proof fn lemma_first_nonce_exists(draft: Header)
    requires
        draft.sealable(),
    ensures
        draft.is_first_nonce(draft.first_nonce()),
{
    let witness = choose|nonce: u64| (#[trigger] draft.with_nonce(nonce)).meets_threshold();
    lemma_first_nonce_below(draft, witness);
}

/// Below every nonce that seals a header there is a smallest one, or it is the smallest itself.
proof fn lemma_first_nonce_below(draft: Header, witness: u64)
    requires
        draft.with_nonce(witness).meets_threshold(),
    ensures
        exists|nonce: u64| draft.is_first_nonce(nonce),
    decreases witness,
{
    if draft.is_first_nonce(witness) {
    } else {
        let lower = choose|lower: u64|
            lower < witness && (#[trigger] draft.with_nonce(lower)).meets_threshold();
        lemma_first_nonce_below(draft, lower);
    }
}

/// Only one nonce is the smallest that seals a header.
pub proof fn lemma_first_nonce_unique(draft: Header, nonce: u64)
    requires
        draft.is_first_nonce(nonce),
    ensures
        draft.sealable(),
        draft.first_nonce() == nonce,
{
    let chosen = draft.first_nonce();
    assert(draft.is_first_nonce(chosen));
    if chosen < nonce {
        assert(!draft.with_nonce(chosen).meets_threshold());
    }
    if nonce < chosen {
        assert(!draft.with_nonce(nonce).meets_threshold());
    }
}

/// Computes the digest of a header.
pub fn hash(header: &Header) -> (d: u64)
    ensures
        d == header.spec_digest(),
{
    let mut hasher = DefaultHasher::new();
    absorb(&mut hasher, header.parent);
    absorb(&mut hasher, header.height);
    absorb(&mut hasher, header.extrinsic);
    absorb(&mut hasher, header.state);
    absorb(&mut hasher, header.consensus_digest);
    assert(hasher@ =~= crate::digest::word_writes(
        seq![
            header.parent,
            header.height,
            header.extrinsic,
            header.state,
            header.consensus_digest,
        ],
    ));
    hasher.finish()
}

/// Searches the nonces from zero up to `last` for the first that makes `draft` a valid proof of
/// work. The nonce that `draft` comes with is not looked at.
///
/// The search is exhausted, and ends without a nonce, when `last` has been tried in vain.
pub fn find_nonce_up_to(draft: &Header, last: u64) -> (found: Option<u64>)
    ensures
        found.is_some() <==> draft.sealable_up_to(last),
        found matches Some(nonce) ==> {
            &&& nonce <= last
            &&& draft.is_first_nonce(nonce)
            &&& nonce == draft.first_nonce()
        },
{
    let mut candidate = Header {
        parent: draft.parent,
        height: draft.height,
        extrinsic: draft.extrinsic,
        state: draft.state,
        consensus_digest: 0,
    };
    while hash(&candidate) >= THRESHOLD
        invariant
            candidate == draft.with_nonce(candidate.consensus_digest),
            candidate.consensus_digest <= last,
            forall|lower: u64|
                lower < candidate.consensus_digest ==> !(#[trigger] draft.with_nonce(
                    lower,
                )).meets_threshold(),
        decreases last - candidate.consensus_digest,
    {
        if candidate.consensus_digest == last {
            return None;
        }
        candidate.consensus_digest += 1;
    }
    proof {
        lemma_first_nonce_unique(*draft, candidate.consensus_digest);
    }
    Some(candidate.consensus_digest)
}

/// Searches all nonces upward from zero for the first that makes `draft` a valid proof of work.
/// The nonce that `draft` comes with is not looked at.
///
/// The search ends without a nonce only when every one of them has been tried.
pub fn find_nonce(draft: &Header) -> (found: Option<u64>)
    ensures
        found.is_some() <==> draft.sealable(),
        found matches Some(nonce) ==> draft.is_first_nonce(nonce) && nonce == draft.first_nonce(),
{
    let found = find_nonce_up_to(draft, u64::MAX);
    proof {
        if draft.sealable() {
            let nonce = choose|nonce: u64| (#[trigger] draft.with_nonce(nonce)).meets_threshold();
            assert(nonce <= u64::MAX && draft.with_nonce(nonce).meets_threshold());
        }
    }
    found
}

impl Header {
    /// Returns the genesis header: no parent, height zero, no extrinsic, state zero, nonce zero.
    /// It is the one header that need not be a valid proof of work.
    pub fn genesis() -> (g: Header)
        ensures
            g == Header::spec_genesis(),
            g.parent == 0,
            g.height == 0,
            g.extrinsic == 0,
            g.state == 0,
            g.consensus_digest == 0,
    {
        Header { parent: 0, height: 0, extrinsic: 0, state: 0, consensus_digest: 0 }
    }

    /// Creates the child of this header that carries `extrinsic`, with the smallest nonce that
    /// makes it a valid proof of work. Returns nothing where the child's height or state would
    /// overflow, or where no nonce at all seals the child.
    pub fn try_child(&self, extrinsic: u64) -> (r: Option<Header>)
        ensures
            r.is_some() <==> self.can_extend(extrinsic) && self.mineable(extrinsic),
            r matches Some(c) ==> {
                &&& c == self.spec_child(extrinsic)
                &&& self.precedes(c)
                &&& c.extrinsic == extrinsic
                &&& c.meets_threshold()
                &&& self.draft(extrinsic).is_first_nonce(c.consensus_digest)
            },
    {
        if self.height == u64::MAX {
            return None;
        }
        match self.state.checked_add(extrinsic) {
            None => None,
            Some(state) => {
                let draft = Header {
                    parent: hash(self),
                    height: self.height + 1,
                    extrinsic,
                    state,
                    consensus_digest: 0,
                };
                match find_nonce(&draft) {
                    None => None,
                    Some(nonce) => Some(
                        Header {
                            parent: draft.parent,
                            height: draft.height,
                            extrinsic: draft.extrinsic,
                            state: draft.state,
                            consensus_digest: nonce,
                        },
                    ),
                }
            },
        }
    }

    /// Creates the child of this header that carries `extrinsic`, with the smallest nonce that
    /// makes it a valid proof of work.
    ///
    /// The height and the state of the child must fit in a `u64`, and some nonce must seal the
    /// child. Whether one does is only found out by searching: [`try_child`](Header::try_child)
    /// searches and reports.
    pub fn child(&self, extrinsic: u64) -> (c: Header)
        requires
            self.can_extend(extrinsic),
            self.mineable(extrinsic),
        ensures
            c == self.spec_child(extrinsic),
            c.parent == self.spec_digest(),
            c.height == self.height + 1,
            c.extrinsic == extrinsic,
            c.state == self.state + extrinsic,
            c.meets_threshold(),
            self.draft(extrinsic).is_first_nonce(c.consensus_digest),
            self.precedes(c),
    {
        match self.try_child(extrinsic) {
            Some(c) => c,
            None => unreached(),
        }
    }

    /// Tells whether `next` may directly follow this header by the rules of linkage.
    fn is_followed_by(&self, next: &Header) -> (ok: bool)
        ensures
            ok == self.precedes(*next),
    {
        let linked = hash(self) == next.parent;
        let counted = self.height < u64::MAX && next.height == self.height + 1;
        let summed = match next.extrinsic.checked_add(self.state) {
            Some(sum) => sum == next.state,
            None => false,
        };
        linked && counted && summed
    }

    /// Tells whether the header is acceptable to the camp of the given parity.
    fn keeps(&self, parity: Parity) -> (ok: bool)
        ensures
            ok == self.obeys(parity),
    {
        let wanted: u64 = match parity {
            Parity::Even => 0,
            Parity::Odd => 1,
        };
        self.height <= FORK_HEIGHT || self.state % 2 == wanted
    }

    /// Verifies `chain` from this header by the shared rules, and by the rule of a camp where
    /// one is given. Every header is examined, also after one has failed.
    fn verify_under(&self, chain: &[Header], camp: Option<Parity>) -> (ok: bool)
        ensures
            ok == (chain_valid(*self, chain@) && (camp matches Some(parity) ==> parity_kept(
                *self,
                chain@,
                parity,
            ))),
    {
        let mut verifiable = match camp {
            Some(parity) => self.keeps(parity),
            None => true,
        };
        let mut previous = *self;
        let mut i: usize = 0;
        while i < chain.len()
            invariant
                i <= chain.len(),
                previous == predecessor(*self, chain@, i as int),
                verifiable == (chain_valid(*self, chain@.take(i as int)) && (camp matches Some(
                    parity,
                ) ==> parity_kept(*self, chain@.take(i as int), parity))),
            decreases chain.len() - i,
        {
            let header = chain[i];
            if !previous.is_followed_by(&header) {
                verifiable = false;
            }
            if hash(&header) >= THRESHOLD {
                verifiable = false;
            }
            match camp {
                Some(parity) => {
                    if !header.keeps(parity) {
                        verifiable = false;
                    }
                    proof {
                        lemma_parity_kept_step(*self, chain@.take(i + 1), parity);
                    }
                },
                None => {},
            }
            proof {
                lemma_chain_valid_step(*self, chain@.take(i + 1));
                assert(chain@.take(i + 1).drop_last() =~= chain@.take(i as int));
            }
            previous = header;
            i += 1;
        }
        assert(chain@.take(i as int) =~= chain@);
        verifiable
    }

    /// Verifies that `chain` is a valid continuation of this header, which is taken as valid:
    /// the headers are linked, their heights count up, their states add up, and each is a valid
    /// proof of work.
    ///
    /// Every header of the chain is examined, also after one has failed. An empty chain is
    /// valid.
    pub fn verify_sub_chain(&self, chain: &[Header]) -> (ok: bool)
        ensures
            ok == chain_valid(*self, chain@),
            chain@.len() == 0 ==> ok,
    {
        self.verify_under(chain, None)
    }

    /// Verifies that `chain` is a valid continuation of this header for the camp of the given
    /// parity: valid by the shared rules, and the state of this header and of every header of
    /// the chain that stands above the fork height has the parity.
    pub fn verify_sub_chain_parity(&self, chain: &[Header], parity: Parity) -> (ok: bool)
        ensures
            ok == chain_valid_parity(*self, chain@, parity),
    {
        self.verify_under(chain, Some(parity))
    }

    /// Verifies that `chain` is a valid continuation of this header where, above the fork
    /// height, the state must be even.
    pub fn verify_sub_chain_even(&self, chain: &[Header]) -> (ok: bool)
        ensures
            ok == chain_valid_parity(*self, chain@, Parity::Even),
    {
        self.verify_sub_chain_parity(chain, Parity::Even)
    }

    /// Verifies that `chain` is a valid continuation of this header where, above the fork
    /// height, the state must be odd.
    pub fn verify_sub_chain_odd(&self, chain: &[Header]) -> (ok: bool)
        ensures
            ok == chain_valid_parity(*self, chain@, Parity::Odd),
    {
        self.verify_sub_chain_parity(chain, Parity::Odd)
    }
}

/// A chain with a last header is valid exactly when the chain before that header is valid, the
/// last header may follow its predecessor and it is a valid proof of work.
pub proof fn lemma_chain_valid_step(anchor: Header, chain: Seq<Header>)
    requires
        chain.len() > 0,
    ensures
        chain_valid(anchor, chain) <==> {
            &&& chain_valid(anchor, chain.drop_last())
            &&& predecessor(anchor, chain, chain.len() - 1).precedes(chain.last())
            &&& chain.last().meets_threshold()
        },
{
    let front = chain.drop_last();
    let last = chain.len() - 1;
    if chain_valid(anchor, chain) {
        assert forall|i: int| 0 <= i < front.len() implies (#[trigger] predecessor(
            anchor,
            front,
            i,
        )).precedes(front[i]) && front[i].meets_threshold() by {
            assert(predecessor(anchor, chain, i) == predecessor(anchor, front, i));
        }
        assert(predecessor(anchor, chain, last).precedes(chain[last]));
    }
    if chain_valid(anchor, front) && predecessor(anchor, chain, last).precedes(chain.last())
        && chain.last().meets_threshold() {
        assert forall|i: int| 0 <= i < chain.len() implies (#[trigger] predecessor(
            anchor,
            chain,
            i,
        )).precedes(chain[i]) && chain[i].meets_threshold() by {
            if i < front.len() {
                assert(predecessor(anchor, front, i).precedes(front[i]));
            }
        }
    }
}

/// A chain with a last header keeps a parity exactly when the chain before that header keeps it
/// and the last header is acceptable.
pub proof fn lemma_parity_kept_step(anchor: Header, chain: Seq<Header>, parity: Parity)
    requires
        chain.len() > 0,
    ensures
        parity_kept(anchor, chain, parity) <==> parity_kept(anchor, chain.drop_last(), parity)
            && chain.last().obeys(parity),
{
    let front = chain.drop_last();
    if parity_kept(anchor, chain, parity) {
        assert forall|i: int| 0 <= i < front.len() implies (#[trigger] front[i]).obeys(parity) by {
            assert(chain[i].obeys(parity));
        }
        assert(chain[chain.len() - 1].obeys(parity));
    }
    if parity_kept(anchor, front, parity) && chain.last().obeys(parity) {
        assert forall|i: int| 0 <= i < chain.len() implies (#[trigger] chain[i]).obeys(parity) by {
            if i < front.len() {
                assert(front[i].obeys(parity));
            }
        }
    }
}

} // verus!
