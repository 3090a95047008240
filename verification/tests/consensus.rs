use header_chain::consensus::{
    find_nonce, find_nonce_up_to, hash, Header, Parity, FORK_HEIGHT, THRESHOLD,
};
use header_chain::consensus_chains::build_contentious_forked_chain;
use std::collections::hash_map::DefaultHasher;
use std::hash::{Hash, Hasher};

#[test]
fn bc_3_genesis_block_height() {
    let g = Header::genesis();
    assert!(g.height == 0);
}

#[test]
fn bc_3_genesis_block_parent() {
    let g = Header::genesis();
    assert!(g.parent == 0);
}

#[test]
fn bc_3_genesis_block_extrinsic() {
    // Typically genesis blocks do not have any extrinsics, so the convention is 0.
    let g = Header::genesis();
    assert!(g.extrinsic == 0);
}

#[test]
fn bc_3_genesis_block_state() {
    let g = Header::genesis();
    assert!(g.state == 0);
}

#[test]
fn bc_3_genesis_consensus_digest() {
    // The genesis block need not have a valid proof of work: its nonce is 0 by definition.
    let g = Header::genesis();
    assert!(g.consensus_digest == 0);
}

#[test]
fn bc_3_child_block_height() {
    let g = Header::genesis();
    let b1 = g.child(0);
    assert!(b1.height == 1);
}

#[test]
fn bc_3_child_block_parent() {
    let g = Header::genesis();
    let b1 = g.child(0);
    assert!(b1.parent == hash(&g));
}

#[test]
fn bc_3_child_block_extrinsic() {
    let g = Header::genesis();
    let b1 = g.child(7);
    assert_eq!(b1.extrinsic, 7);
}

#[test]
fn bc_3_child_block_state() {
    let g = Header::genesis();
    let b1 = g.child(7);
    assert_eq!(b1.state, 7);
}

#[test]
fn bc_3_child_block_consensus_digest() {
    let g = Header::genesis();
    let b1 = g.child(7);
    assert!(hash(&b1) < THRESHOLD);
}

#[test]
fn bc_3_verify_genesis_only() {
    let g = Header::genesis();

    assert!(g.verify_sub_chain(&[]));
}

#[test]
fn bc_3_verify_three_blocks() {
    let g = Header::genesis();
    let b1 = g.child(5);
    let b2 = b1.child(6);

    assert_eq!(b2.state, 11);
    assert!(g.verify_sub_chain(&[b1, b2]));
}

#[test]
fn bc_3_cant_verify_invalid_parent() {
    let g = Header::genesis();
    let mut b1 = g.child(5);
    b1.parent = 10;

    assert!(!g.verify_sub_chain(&[b1]));
}

#[test]
fn bc_3_cant_verify_invalid_number() {
    let g = Header::genesis();
    let mut b1 = g.child(5);
    b1.height = 10;

    assert!(!g.verify_sub_chain(&[b1]));
}

#[test]
fn bc_3_cant_verify_invalid_state() {
    let g = Header::genesis();
    let mut b1 = g.child(5);
    b1.state = 10;

    assert!(!g.verify_sub_chain(&[b1]));
}

#[test]
fn bc_3_cant_verify_invalid_pow() {
    let g = Header::genesis();
    let mut b1 = g.child(5);
    b1.consensus_digest = 10;

    assert!(!g.verify_sub_chain(&[b1]));
}

#[test]
fn bc_3_even_chain_valid() {
    let g = Header::genesis(); // 0
    let b1 = g.child(2); // 2
    let b2 = b1.child(1); // 3
    // It's all about the states, not the extrinsics. So once the state is even
    // we need to keep it that way. So add evens
    let b3 = b2.child(1); // 4
    let b4 = b3.child(2); // 6
    println!(
        "g.verify_sub_chain_even(&[b1, b2, b3, b4]) : {:?}",
        g.verify_sub_chain_even(&[b1.clone(), b2.clone(), b3.clone(), b4.clone()])
    );
    assert!(g.verify_sub_chain_even(&[b1, b2, b3, b4]));
}

#[test]
fn bc_3_even_chain_invalid_first_block_after_fork() {
    let g = Header::genesis(); // 0
    let b1 = g.child(2); // 2
    let b2 = b1.child(1); // 3
    let b3 = b2.child(2); // 5 - invalid
    let b4 = b3.child(1); // 6

    assert!(!g.verify_sub_chain_even(&[b1, b2, b3, b4]));
}

#[test]
fn bc_3_even_chain_invalid_second_block_after_fork() {
    let g = Header::genesis(); // 0
    let b1 = g.child(2); // 2
    let b2 = b1.child(1); // 3
    let b3 = b2.child(1); // 4
    let b4 = b3.child(1); // 5 - invalid

    assert!(!g.verify_sub_chain_even(&[b1, b2, b3, b4]));
}

#[test]
fn bc_3_odd_chain_valid() {
    let g = Header::genesis(); // 0
    let b1 = g.child(2); // 2
    let b2 = b1.child(1); // 3
    // It's all about the states, not the extrinsics. So once the state is odd
    // we need to keep it that way. So add evens
    let b3 = b2.child(2); // 5
    let b4 = b3.child(2); // 7

    assert!(g.verify_sub_chain_odd(&[b1, b2, b3, b4]));
}

#[test]
fn bc_3_odd_chain_invalid_first_block_after_fork() {
    let g = Header::genesis(); // 0
    let b1 = g.child(2); // 2
    let b2 = b1.child(1); // 3
    let b3 = b2.child(1); // 4 - invalid
    let b4 = b3.child(1); // 5

    assert!(!g.verify_sub_chain_odd(&[b1, b2, b3, b4]));
}

#[test]
fn bc_3_odd_chain_invalid_second_block_after_fork() {
    let g = Header::genesis(); // 0
    let b1 = g.child(2); // 2
    let b2 = b1.child(1); // 3
    let b3 = b2.child(2); // 5
    let b4 = b3.child(1); // 6 - invalid

    assert!(!g.verify_sub_chain_odd(&[b1, b2, b3, b4]));
}

#[test]
fn bc_3_verify_forked_chain() {
    let (prefix, even, odd) = build_contentious_forked_chain().unwrap();

    let g = &prefix[0];
    let full_even_chain = [&prefix[1..], &even].concat();
    let full_odd_chain = [&prefix[1..], &odd].concat();

    // Both chains are individually valid according to the shared rules.
    assert!(g.verify_sub_chain(&full_even_chain[..]));
    assert!(g.verify_sub_chain(&full_odd_chain[..]));

    // Only the even chain is valid according to the even rules
    assert!(g.verify_sub_chain_even(&full_even_chain[..]));
    assert!(!g.verify_sub_chain_even(&full_odd_chain[..]));

    // Only the odd chain is valid according to the odd rules
    assert!(!g.verify_sub_chain_odd(&full_even_chain[..]));
    assert!(g.verify_sub_chain_odd(&full_odd_chain[..]));
}

/// What the standard library makes of a value with a fresh default hasher.
fn std_hash<T: Hash>(t: &T) -> u64 {
    let mut s = DefaultHasher::new();
    t.hash(&mut s);
    s.finish()
}

#[test]
fn consensus_parameters() {
    assert_eq!(THRESHOLD, 184_467_440_737_095_516);
    assert_eq!(THRESHOLD, u64::MAX / 100);
    assert_eq!(FORK_HEIGHT, 2);
}

#[test]
fn consensus_genesis_is_the_zero_header() {
    let g = Header::genesis();
    assert_eq!(g, Header { parent: 0, height: 0, extrinsic: 0, state: 0, consensus_digest: 0 });
}

#[test]
fn consensus_digest_is_the_standard_hash_of_the_header() {
    let g = Header::genesis();
    assert_eq!(hash(&g), std_hash(&g));
    let odd = Header {
        parent: 0x0123_4567_89ab_cdef,
        height: 3,
        extrinsic: u64::MAX,
        state: 1 << 40,
        consensus_digest: 99,
    };
    assert_eq!(hash(&odd), std_hash(&odd));
    assert_eq!(
        hash(&odd),
        std_hash(&(odd.parent, odd.height, odd.extrinsic, odd.state, odd.consensus_digest))
    );
}

#[test]
fn consensus_digest_tells_the_fields_apart() {
    let base = Header { parent: 1, height: 2, extrinsic: 3, state: 4, consensus_digest: 5 };
    let digest = hash(&base);
    assert_eq!(digest, hash(&base.clone()));
    assert_ne!(digest, hash(&Header { parent: 2, ..base }));
    assert_ne!(digest, hash(&Header { height: 3, ..base }));
    assert_ne!(digest, hash(&Header { extrinsic: 4, ..base }));
    assert_ne!(digest, hash(&Header { state: 5, ..base }));
    assert_ne!(digest, hash(&Header { consensus_digest: 6, ..base }));
    assert_ne!(digest, hash(&Header { state: 5, consensus_digest: 4, ..base }));
}

#[test]
fn consensus_find_nonce_returns_the_first_that_seals() {
    for extrinsic in [0u64, 1, 5, 7, 1000] {
        let draft = Header {
            parent: hash(&Header::genesis()),
            height: 1,
            extrinsic,
            state: extrinsic,
            consensus_digest: 0,
        };
        let nonce = find_nonce(&draft).unwrap();
        assert!(hash(&Header { consensus_digest: nonce, ..draft }) < THRESHOLD);
        for lower in 0..nonce {
            assert!(hash(&Header { consensus_digest: lower, ..draft }) >= THRESHOLD);
        }
        // The nonce that the draft comes with plays no part.
        assert_eq!(find_nonce(&Header { consensus_digest: 12345, ..draft }), Some(nonce));
        assert_eq!(find_nonce(&Header { consensus_digest: nonce, ..draft }), Some(nonce));
    }
}

#[test]
fn consensus_bounded_search_reports_exhaustion() {
    let g = Header::genesis();
    let b1 = g.child(5);
    let draft = Header { consensus_digest: 0, ..b1 };
    let nonce = b1.consensus_digest;
    assert!(nonce > 0);
    assert_eq!(find_nonce_up_to(&draft, nonce), Some(nonce));
    assert_eq!(find_nonce_up_to(&draft, nonce + 1), Some(nonce));
    assert_eq!(find_nonce_up_to(&draft, u64::MAX), Some(nonce));
    assert_eq!(find_nonce_up_to(&draft, nonce - 1), None);
    assert_eq!(find_nonce_up_to(&draft, 0), None);
    assert_eq!(find_nonce(&draft), Some(nonce));
}

#[test]
fn consensus_child_fields_follow_the_parent() {
    let parent = Header { parent: 77, height: 41, extrinsic: 9, state: 1000, consensus_digest: 3 };
    let c = parent.child(234);
    assert_eq!(c.parent, hash(&parent));
    assert_eq!(c.height, 42);
    assert_eq!(c.extrinsic, 234);
    assert_eq!(c.state, 1234);
    assert!(hash(&c) < THRESHOLD);
    let draft = Header { consensus_digest: 0, ..c };
    assert_eq!(Some(c.consensus_digest), find_nonce(&draft));
    assert!(parent.verify_sub_chain(&[c]));
}

#[test]
fn consensus_child_is_deterministic() {
    let g = Header::genesis();
    assert_eq!(g.child(5), g.child(5));
    assert_ne!(g.child(5), g.child(6));
}

#[test]
fn consensus_every_child_meets_the_threshold() {
    let mut tip = Header::genesis();
    for extrinsic in 0..20 {
        tip = tip.child(extrinsic);
        assert!(hash(&tip) < THRESHOLD);
    }
    assert_eq!(tip.height, 20);
    assert_eq!(tip.state, 190);
}

#[test]
fn consensus_try_child_agrees_with_child() {
    let g = Header::genesis();
    assert_eq!(g.try_child(5), Some(g.child(5)));
    let b1 = g.child(5);
    assert_eq!(b1.try_child(u64::MAX - 5), Some(b1.child(u64::MAX - 5)));
}

#[test]
fn consensus_try_child_refuses_overflow() {
    let top = Header { parent: 0, height: u64::MAX, extrinsic: 0, state: 0, consensus_digest: 0 };
    assert_eq!(top.try_child(0), None);
    let full = Header { parent: 0, height: 0, extrinsic: 0, state: u64::MAX, consensus_digest: 0 };
    assert_eq!(full.try_child(1), None);
    assert!(full.try_child(0).is_some());
    let b1 = Header::genesis().child(6);
    assert_eq!(b1.try_child(u64::MAX - 5), None);
}

#[test]
fn consensus_verify_reports_overflow_as_invalid() {
    let top = Header { parent: 0, height: u64::MAX, extrinsic: 0, state: 0, consensus_digest: 0 };
    let draft =
        Header { parent: hash(&top), height: 0, extrinsic: 0, state: 0, consensus_digest: 0 };
    let wrapped = Header { consensus_digest: find_nonce(&draft).unwrap(), ..draft };
    assert!(hash(&wrapped) < THRESHOLD);
    assert!(!top.verify_sub_chain(&[wrapped]));
    assert!(!top.verify_sub_chain_even(&[wrapped]));

    let full = Header { parent: 0, height: 0, extrinsic: 0, state: u64::MAX, consensus_digest: 0 };
    let draft =
        Header { parent: hash(&full), height: 1, extrinsic: 2, state: 1, consensus_digest: 0 };
    let wrapped = Header { consensus_digest: find_nonce(&draft).unwrap(), ..draft };
    assert!(!full.verify_sub_chain(&[wrapped]));
    assert!(!full.verify_sub_chain_odd(&[wrapped]));
}

#[test]
fn consensus_verify_rejects_a_nonce_that_does_not_seal() {
    let g = Header::genesis();
    let b1 = g.child(5);
    let b2 = b1.child(6);
    // Find a nonce for the last header that links as well but leaves the digest too high.
    let mut unsealed = b2;
    unsealed.consensus_digest = 0;
    while hash(&unsealed) < THRESHOLD {
        unsealed.consensus_digest += 1;
    }
    assert!(!g.verify_sub_chain(&[b1, unsealed]));
    assert!(!g.verify_sub_chain_even(&[b1, unsealed]));
    assert!(!g.verify_sub_chain_odd(&[b1, unsealed]));
    assert!(g.verify_sub_chain(&[b1, b2]));
}

#[test]
fn consensus_verify_accepts_any_nonce_that_seals() {
    let g = Header::genesis();
    let b1 = g.child(5);
    // The next nonce after the first that seals the header is as good for verification.
    let mut later = b1;
    later.consensus_digest += 1;
    while hash(&later) >= THRESHOLD {
        later.consensus_digest += 1;
    }
    assert_ne!(later, b1);
    assert!(g.verify_sub_chain(&[later]));
    assert!(g.verify_sub_chain(&[later, later.child(1)]));
    assert!(!g.verify_sub_chain(&[later, b1.child(1)]));
}

#[test]
fn consensus_verify_rejects_tampering_after_the_first() {
    let g = Header::genesis();
    let b1 = g.child(5);
    let b2 = b1.child(6);
    let b3 = b2.child(7);
    assert!(g.verify_sub_chain(&[b1, b2, b3]));

    let reseal = |h: Header| Header { consensus_digest: find_nonce(&h).unwrap(), ..h };

    // Each changed header is sealed again, so that only the change itself is at fault.
    let t3 = reseal(Header { parent: 10, ..b3 });
    assert!(!g.verify_sub_chain(&[b1, b2, t3]));
    let t3 = reseal(Header { height: 10, ..b3 });
    assert!(!g.verify_sub_chain(&[b1, b2, t3]));
    let t3 = reseal(Header { state: 10, ..b3 });
    assert!(!g.verify_sub_chain(&[b1, b2, t3]));
    let t3 = reseal(Header { extrinsic: 8, ..b3 });
    assert!(!g.verify_sub_chain(&[b1, b2, t3]));

    let t2 = reseal(Header { state: 10, ..b2 });
    let t3 = reseal(Header { parent: hash(&t2), state: 17, ..b3 });
    assert!(t2.verify_sub_chain(&[t3]));
    assert!(!g.verify_sub_chain(&[b1, t2, t3]));
    let t2 = reseal(Header { height: 7, ..b2 });
    let t3 = reseal(Header { parent: hash(&t2), height: 8, ..b3 });
    assert!(t2.verify_sub_chain(&[t3]));
    assert!(!g.verify_sub_chain(&[b1, t2, t3]));

    // Out of order, or with a header left out.
    assert!(!g.verify_sub_chain(&[b2, b1, b3]));
    assert!(!g.verify_sub_chain(&[b1, b3]));
}

#[test]
fn consensus_parity_rule_matches_the_named_rules() {
    let g = Header::genesis();
    let b1 = g.child(2);
    let b2 = b1.child(1);
    let even = [b1, b2, b2.child(1), b2.child(1).child(2)];
    let odd = [b1, b2, b2.child(2), b2.child(2).child(2)];
    for chain in [&even[..], &odd[..], &even[..2], &[]] {
        assert_eq!(
            g.verify_sub_chain_parity(chain, Parity::Even),
            g.verify_sub_chain_even(chain)
        );
        assert_eq!(g.verify_sub_chain_parity(chain, Parity::Odd), g.verify_sub_chain_odd(chain));
    }
    assert!(g.verify_sub_chain_parity(&even, Parity::Even));
    assert!(!g.verify_sub_chain_parity(&even, Parity::Odd));
    assert!(!g.verify_sub_chain_parity(&odd, Parity::Even));
    assert!(g.verify_sub_chain_parity(&odd, Parity::Odd));
}

#[test]
fn consensus_parity_does_not_bind_at_the_fork_height() {
    let g = Header::genesis();
    // States 1 and 3 at heights 1 and 2: odd, and at the fork height or below.
    let b1 = g.child(1);
    let b2 = b1.child(2);
    assert_eq!(b2.height, FORK_HEIGHT);
    assert_eq!(b2.state, 3);
    assert!(g.verify_sub_chain_even(&[b1, b2]));
    assert!(g.verify_sub_chain_odd(&[b1, b2]));
    // States 2 and 4 at heights 1 and 2: even.
    let c1 = g.child(2);
    let c2 = c1.child(2);
    assert_eq!(c2.height, FORK_HEIGHT);
    assert_eq!(c2.state, 4);
    assert!(g.verify_sub_chain_even(&[c1, c2]));
    assert!(g.verify_sub_chain_odd(&[c1, c2]));
    // An anchor at the fork height is exempt too.
    assert!(b2.verify_sub_chain_even(&[]));
    assert!(c2.verify_sub_chain_odd(&[]));
}

#[test]
fn consensus_parity_binds_one_above_the_fork_height() {
    let g = Header::genesis();
    let b1 = g.child(1);
    let b2 = b1.child(2); // 3, at the fork height
    let odd3 = b2.child(2); // 5
    let even3 = b2.child(1); // 4
    assert_eq!(odd3.height, FORK_HEIGHT + 1);
    assert_eq!(even3.height, FORK_HEIGHT + 1);
    assert!(!g.verify_sub_chain_even(&[b1, b2, odd3]));
    assert!(g.verify_sub_chain_odd(&[b1, b2, odd3]));
    assert!(g.verify_sub_chain_even(&[b1, b2, even3]));
    assert!(!g.verify_sub_chain_odd(&[b1, b2, even3]));
    // Both are valid by the shared rules.
    assert!(g.verify_sub_chain(&[b1, b2, odd3]));
    assert!(g.verify_sub_chain(&[b1, b2, even3]));
}

#[test]
fn consensus_parity_binds_the_anchor() {
    let g = Header::genesis();
    let b1 = g.child(1);
    let b2 = b1.child(2);
    let b3 = b2.child(2); // 5, above the fork height
    let b4 = b3.child(1); // 6
    assert!(b3.verify_sub_chain(&[]));
    assert!(!b3.verify_sub_chain_even(&[]));
    assert!(b3.verify_sub_chain_odd(&[]));
    // The chain after the anchor is fine for the even camp, the anchor is not.
    assert!(b3.verify_sub_chain(&[b4]));
    assert!(!b3.verify_sub_chain_even(&[b4]));
    assert!(!b3.verify_sub_chain_odd(&[b4]));
    assert!(b4.verify_sub_chain_even(&[]));
}

#[test]
fn consensus_parity_violation_is_not_healed_later() {
    let g = Header::genesis();
    let b1 = g.child(2);
    let b2 = b1.child(2); // 4
    let b3 = b2.child(1); // 5: wrong for the even camp
    let b4 = b3.child(1); // 6
    let b5 = b4.child(2); // 8
    assert!(g.verify_sub_chain(&[b1, b2, b3, b4, b5]));
    assert!(!g.verify_sub_chain_even(&[b1, b2, b3, b4, b5]));
    assert!(!g.verify_sub_chain_odd(&[b1, b2, b3, b4, b5]));
}

#[test]
fn consensus_camp_rules_need_the_shared_rules() {
    let g = Header::genesis();
    let b1 = g.child(2);
    let b2 = b1.child(2);
    let b3 = b2.child(2);
    let mut t3 = b3;
    t3.height = 10;
    let t3 = Header { consensus_digest: find_nonce(&t3).unwrap(), ..t3 };
    assert!(g.verify_sub_chain_even(&[b1, b2, b3]));
    assert!(!g.verify_sub_chain_even(&[b1, b2, t3]));
    assert!(!g.verify_sub_chain(&[b1, b2, t3]));
}

#[test]
fn consensus_contentious_fork_in_detail() {
    let (prefix, even, odd) = build_contentious_forked_chain().unwrap();
    let g = Header::genesis();
    assert_eq!(prefix, vec![g, g.child(1)]);
    assert_eq!(prefix[1].height + 1, FORK_HEIGHT);
    assert_eq!(even.len(), 4);
    assert_eq!(odd.len(), 4);
    let field = |chain: &Vec<Header>, f: fn(&Header) -> u64| -> Vec<u64> {
        chain.iter().map(f).collect()
    };
    assert_eq!(field(&even, |h| h.extrinsic), vec![1, 2, 4, 4]);
    assert_eq!(field(&odd, |h| h.extrinsic), vec![2, 2, 4, 4]);
    assert_eq!(field(&even, |h| h.state), vec![2, 4, 8, 12]);
    assert_eq!(field(&odd, |h| h.state), vec![3, 5, 9, 13]);
    assert_eq!(field(&even, |h| h.height), vec![2, 3, 4, 5]);
    assert_eq!(field(&odd, |h| h.height), vec![2, 3, 4, 5]);
    assert_eq!(even[0], prefix[1].child(1));
    assert_eq!(odd[0], prefix[1].child(2));
    assert!(prefix[1].verify_sub_chain_even(&even));
    assert!(prefix[1].verify_sub_chain_odd(&odd));
    assert_eq!(build_contentious_forked_chain(), Some((prefix, even, odd)));
}

#[test]
fn consensus_forks_from_a_common_prefix_both_verify() {
    let g = Header::genesis();
    let b1 = g.child(1);
    let b2 = b1.child(2);
    let left = [b1, b2, b2.child(3), b2.child(3).child(4)];
    let right = [b1, b2, b2.child(30), b2.child(30).child(4)];
    assert!(g.verify_sub_chain(&left));
    assert!(g.verify_sub_chain(&right));
    assert_ne!(left, right);
    assert_eq!(left[..2], right[..2]);
    assert_ne!(left[2], right[2]);
    assert!(!g.verify_sub_chain(&[left[0], left[1], left[2], right[3]]));
}
