//! Multicast-group identifiers and the subscription bitmask.
//!
//! A routing-netlink multicast group is named by an integer id in
//! `[0, 31]`; id 0 is reserved ("no group") and contributes no bit.
//! Subscribing to group `g >= 1` sets bit `g - 1` of a 32-bit mask.
//! Ids above 31 need a different kernel mechanism and are rejected
//! before any socket is touched.

use vstd::prelude::*;

verus! {

/// Link up/down notifications.
pub const RTNLGRP_LINK: u32 = 1;
/// Neighbor table updates.
pub const RTNLGRP_NEIGH: u32 = 3;
/// IPv4 address add/remove.
pub const RTNLGRP_IPV4_IFADDR: u32 = 5;
/// IPv4 multicast route changes.
pub const RTNLGRP_IPV4_MROUTE: u32 = 6;
/// IPv4 route changes.
pub const RTNLGRP_IPV4_ROUTE: u32 = 7;
/// IPv4 routing-rule changes.
pub const RTNLGRP_IPV4_RULE: u32 = 8;
/// IPv6 address add/remove.
pub const RTNLGRP_IPV6_IFADDR: u32 = 9;
/// IPv6 multicast route changes.
pub const RTNLGRP_IPV6_MROUTE: u32 = 10;
/// IPv6 route changes.
pub const RTNLGRP_IPV6_ROUTE: u32 = 11;
/// IPv6 routing-rule changes.
pub const RTNLGRP_IPV6_RULE: u32 = 19;
/// IPv4 netconf changes.
pub const RTNLGRP_IPV4_NETCONF: u32 = 24;
/// IPv6 netconf changes.
pub const RTNLGRP_IPV6_NETCONF: u32 = 25;
/// MPLS route changes.
pub const RTNLGRP_MPLS_ROUTE: u32 = 27;
/// Network-namespace-id events.
pub const RTNLGRP_NSID: u32 = 28;
/// MPLS netconf changes.
pub const RTNLGRP_MPLS_NETCONF: u32 = 29;

/// Largest group id a 32-bit subscription mask can express.
pub const MAX_GROUP_ID: u32 = 31;

/// The bit a single group id contributes to the mask: no bit for the
/// reserved id 0, bit `g - 1` for `g` in `[1, 31]`.
pub open spec fn group_bit(g: u32) -> u32
    recommends
        g <= MAX_GROUP_ID,
{
    if g == 0 {
        0u32
    } else {
        1u32 << ((g - 1) as u32)
    }
}

/// Whether the mask subscribes group `g` (for `g` in `[1, 31]`):
/// bit `g - 1` of `mask` is set.
pub open spec fn mask_has(mask: u32, g: u32) -> bool
    recommends
        1 <= g <= MAX_GROUP_ID,
{
    (mask >> ((g - 1) as u32)) & 1 == 1
}

/// The mask a sequence of group ids builds: the bitwise or of the
/// bit of each id.
pub open spec fn mask_of(ids: Seq<u32>) -> u32
    decreases ids.len(),
{
    if ids.len() == 0 {
        0u32
    } else {
        mask_of(ids.drop_last()) | group_bit(ids.last())
    }
}

/// The set of group ids a mask subscribes.
pub open spec fn groups_of(mask: u32) -> Set<u32> {
    Set::new(|g: u32| 1 <= g <= MAX_GROUP_ID && mask_has(mask, g))
}

/// The bitmask contribution of one multicast group id.
///
/// Ids above 31 cannot be encoded in a 32-bit mask and are excluded
/// here; `checked_mgrp` is the total variant that rejects them.
pub fn nl_mgrp(group: u32) -> (r: u32)
    requires
        group <= MAX_GROUP_ID,
    ensures
        r == group_bit(group),
{
    if group == 0 {
        0
    } else {
        1u32 << (group - 1)
    }
}

/// `nl_mgrp` made total: `None` for a group id above 31 instead of a
/// wrapped or truncated bit.
pub fn checked_mgrp(group: u32) -> (r: Option<u32>)
    ensures
        group <= MAX_GROUP_ID ==> r == Some(group_bit(group)),
        group > MAX_GROUP_ID ==> r is None,
{
    if group > MAX_GROUP_ID {
        None
    } else {
        Some(nl_mgrp(group))
    }
}

/// Build the subscription mask for a set of group ids, each in `[0, 31]`.
pub fn build_mask(ids: &Vec<u32>) -> (mask: u32)
    requires
        forall|i: int| 0 <= i < ids@.len() ==> ids@[i] <= MAX_GROUP_ID,
    ensures
        mask == mask_of(ids@),
{
    let mut mask: u32 = 0;
    let mut i: usize = 0;
    while i < ids.len()
        invariant
            i <= ids@.len(),
            forall|j: int| 0 <= j < ids@.len() ==> ids@[j] <= MAX_GROUP_ID,
            mask == mask_of(ids@.take(i as int)),
        decreases ids@.len() - i,
    {
        proof {
            assert(ids@.take(i + 1).drop_last() =~= ids@.take(i as int));
            assert(ids@.take(i + 1).last() == ids@[i as int]);
        }
        mask = mask | nl_mgrp(ids[i]);
        i = i + 1;
    }
    proof {
        assert(ids@.take(ids@.len() as int) =~= ids@);
    }
    mask
}

/// `build_mask` made total: `None` as soon as any id is above 31,
/// before any bit is computed.
pub fn try_build_mask(ids: &Vec<u32>) -> (r: Option<u32>)
    ensures
        (forall|i: int| 0 <= i < ids@.len() ==> ids@[i] <= MAX_GROUP_ID) ==> r == Some(mask_of(ids@)),
        (exists|i: int| 0 <= i < ids@.len() && ids@[i] > MAX_GROUP_ID) ==> r is None,
{
    let mut i: usize = 0;
    while i < ids.len()
        invariant
            i <= ids@.len(),
            forall|j: int| 0 <= j < i ==> ids@[j] <= MAX_GROUP_ID,
        decreases ids@.len() - i,
    {
        if ids[i] > MAX_GROUP_ID {
            return None;
        }
        i = i + 1;
    }
    Some(build_mask(ids))
}

/// The group ids this monitor subscribes at startup: link, neighbor,
/// IPv4/IPv6 addresses, IPv4/IPv6/MPLS routes and IPv4/IPv6 multicast
/// routes, IPv4/IPv6 rules, IPv4/IPv6/MPLS netconf, and namespace ids.
pub open spec fn default_group_ids() -> Seq<u32> {
    seq![
        RTNLGRP_LINK,
        RTNLGRP_IPV4_IFADDR,
        RTNLGRP_IPV6_IFADDR,
        RTNLGRP_IPV4_ROUTE,
        RTNLGRP_IPV6_ROUTE,
        RTNLGRP_MPLS_ROUTE,
        RTNLGRP_IPV4_MROUTE,
        RTNLGRP_IPV6_MROUTE,
        RTNLGRP_NEIGH,
        RTNLGRP_IPV4_NETCONF,
        RTNLGRP_IPV6_NETCONF,
        RTNLGRP_IPV4_RULE,
        RTNLGRP_IPV6_RULE,
        RTNLGRP_NSID,
        RTNLGRP_MPLS_NETCONF,
    ]
}

/// The startup subscription list as a vector, every id in range.
pub fn default_listen_groups() -> (ids: Vec<u32>)
    ensures
        ids@ == default_group_ids(),
        forall|i: int| 0 <= i < ids@.len() ==> ids@[i] <= MAX_GROUP_ID,
{
    let ids: Vec<u32> = vec![
        RTNLGRP_LINK,
        RTNLGRP_IPV4_IFADDR,
        RTNLGRP_IPV6_IFADDR,
        RTNLGRP_IPV4_ROUTE,
        RTNLGRP_IPV6_ROUTE,
        RTNLGRP_MPLS_ROUTE,
        RTNLGRP_IPV4_MROUTE,
        RTNLGRP_IPV6_MROUTE,
        RTNLGRP_NEIGH,
        RTNLGRP_IPV4_NETCONF,
        RTNLGRP_IPV6_NETCONF,
        RTNLGRP_IPV4_RULE,
        RTNLGRP_IPV6_RULE,
        RTNLGRP_NSID,
        RTNLGRP_MPLS_NETCONF,
    ];
    proof {
        assert(ids@ =~= default_group_ids());
    }
    ids
}

/// The mask the startup subscription list builds.
pub fn default_group_mask() -> (mask: u32)
    ensures
        mask == mask_of(default_group_ids()),
{
    let ids = default_listen_groups();
    build_mask(&ids)
}

/// The group ids a mask subscribes, in ascending order.
pub fn decompose_mask(mask: u32) -> (ids: Vec<u32>)
    ensures
        forall|g: u32| #[trigger] ids@.contains(g) <==> (1 <= g <= MAX_GROUP_ID && mask_has(mask, g)),
        forall|g: u32| 1 <= g <= MAX_GROUP_ID && #[trigger] mask_has(mask, g) ==> ids@.contains(g),
        forall|i: int, j: int| 0 <= i < j < ids@.len() ==> ids@[i] < ids@[j],
{
    let mut ids: Vec<u32> = Vec::new();
    let mut g: u32 = 1;
    while g <= MAX_GROUP_ID
        invariant
            1 <= g <= MAX_GROUP_ID + 1,
            forall|h: u32| #[trigger] ids@.contains(h) <==> (1 <= h < g && mask_has(mask, h)),
            forall|h: u32| 1 <= h < g && #[trigger] mask_has(mask, h) ==> ids@.contains(h),
            forall|i: int, j: int| 0 <= i < j < ids@.len() ==> ids@[i] < ids@[j],
            forall|i: int| 0 <= i < ids@.len() ==> ids@[i] < g,
        decreases MAX_GROUP_ID + 1 - g,
    {
        if (mask >> (g - 1)) & 1 == 1 {
            let ghost prev = ids@;
            ids.push(g);
            proof {
                assert(mask_has(mask, g));
                let cur = ids@;
                assert forall|h: u32| cur.contains(h) implies 1 <= h <= g && mask_has(mask, h) by {
                    let k = choose|k: int| 0 <= k < cur.len() && cur[k] == h;
                    if k < prev.len() {
                        assert(prev[k] == h);
                        assert(prev.contains(h));
                    } else {
                        assert(h == g);
                    }
                }
                assert forall|h: u32| 1 <= h <= g && mask_has(mask, h) implies cur.contains(h) by {
                    if h < g {
                        assert(prev.contains(h));
                        let k = choose|k: int| 0 <= k < prev.len() && prev[k] == h;
                        assert(cur[k] == h);
                    } else {
                        assert(cur[cur.len() - 1] == g);
                    }
                }
            }
        }
        g = g + 1;
    }
    ids
}

/// For `g` in `[1, 31]`, the mask built from a sequence of ids in
/// range subscribes `g` exactly when `g` occurs in the sequence.
pub proof fn lemma_mask_of_contains(ids: Seq<u32>, g: u32)
    requires
        forall|i: int| 0 <= i < ids.len() ==> ids[i] <= MAX_GROUP_ID,
        1 <= g <= MAX_GROUP_ID,
    ensures
        mask_has(mask_of(ids), g) <==> ids.contains(g),
    decreases ids.len(),
{
    broadcast use vstd::seq_lib::lemma_seq_contains_after_push;

    if ids.len() == 0 {
        assert((0u32 >> ((g - 1) as u32)) & 1 != 1) by (bit_vector);
        assert(!ids.contains(g));
    } else {
        let front = ids.drop_last();
        let last = ids.last();
        assert forall|i: int| 0 <= i < front.len() implies front[i] <= MAX_GROUP_ID by {
            assert(front[i] == ids[i]);
        }
        lemma_mask_of_contains(front, g);
        let m = mask_of(front);
        let b = group_bit(last);
        assert(mask_of(ids) == (m | b));
        assert((((m | b) >> ((g - 1) as u32)) & 1 == 1) <==> (((m >> ((g - 1) as u32)) & 1
            == 1) || ((b >> ((g - 1) as u32)) & 1 == 1))) by (bit_vector);
        if last == 0 {
            assert((0u32 >> ((g - 1) as u32)) & 1 != 1) by (bit_vector);
        } else {
            assert((((1u32 << ((last - 1) as u32)) >> ((g - 1) as u32)) & 1 == 1) <==> (last
                == g)) by (bit_vector)
                requires
                    1 <= last <= 31,
                    1 <= g <= 31,
            ;
        }
        assert(front.push(last) =~= ids);
        assert(ids.contains(g) <==> (last == g || front.contains(g)));
    }
}

/// The mask built from ids in `[0, 31]` never sets bit 31: group 31
/// itself uses bit 30, and no admitted id reaches higher.
pub proof fn lemma_mask_of_high_bit(ids: Seq<u32>)
    requires
        forall|i: int| 0 <= i < ids.len() ==> ids[i] <= MAX_GROUP_ID,
    ensures
        (mask_of(ids) >> 31u32) & 1 == 0,
    decreases ids.len(),
{
    if ids.len() == 0 {
        assert((0u32 >> 31u32) & 1 == 0) by (bit_vector);
    } else {
        let front = ids.drop_last();
        let last = ids.last();
        assert forall|i: int| 0 <= i < front.len() implies front[i] <= MAX_GROUP_ID by {
            assert(front[i] == ids[i]);
        }
        lemma_mask_of_high_bit(front);
        let m = mask_of(front);
        let b = group_bit(last);
        if last == 0 {
            assert(((m | 0u32) >> 31u32) & 1 == 0) by (bit_vector)
                requires
                    (m >> 31u32) & 1 == 0,
            ;
        } else {
            assert(((1u32 << ((last - 1) as u32)) >> 31u32) & 1 == 0) by (bit_vector)
                requires
                    1 <= last <= 31,
            ;
            assert(((m | b) >> 31u32) & 1 == 0) by (bit_vector)
                requires
                    (m >> 31u32) & 1 == 0,
                    (b >> 31u32) & 1 == 0,
            ;
        }
    }
}

/// Two 32-bit values that agree on every bit from `n` up agree once
/// both are shifted right by `n`.
proof fn lemma_eq_above(x: u32, y: u32, n: u32)
    requires
        n <= 32,
        forall|b: u32| n <= b < 32 ==> ((x >> b) & 1) == ((y >> b) & 1),
    ensures
        (x >> n) == (y >> n),
    decreases 32 - n,
{
    if n == 32 {
        assert((x >> 32u32) == 0 && (y >> 32u32) == 0) by (bit_vector);
    } else {
        lemma_eq_above(x, y, (n + 1) as u32);
        assert((x >> n) == (y >> n)) by (bit_vector)
            requires
                n < 32,
                (x >> ((n + 1) as u32)) == (y >> ((n + 1) as u32)),
                ((x >> n) & 1) == ((y >> n) & 1),
        ;
    }
}

/// The subscription mask depends only on which ids occur in the input,
/// not on their order or their multiplicity: any two sequences of ids
/// in range with the same members build the same mask. Commutativity
/// and idempotence of `build_mask` are instances.
pub proof fn lemma_mask_order_independent(a: Seq<u32>, b: Seq<u32>)
    requires
        forall|i: int| 0 <= i < a.len() ==> a[i] <= MAX_GROUP_ID,
        forall|i: int| 0 <= i < b.len() ==> b[i] <= MAX_GROUP_ID,
        forall|g: u32| a.contains(g) <==> b.contains(g),
    ensures
        mask_of(a) == mask_of(b),
{
    let ma = mask_of(a);
    let mb = mask_of(b);
    assert forall|bit: u32| bit < 31 implies ((ma >> bit) & 1) == ((mb >> bit) & 1) by {
        let g = (bit + 1) as u32;
        assert((g - 1) as u32 == bit);
        lemma_mask_of_contains(a, g);
        lemma_mask_of_contains(b, g);
        assert(((ma >> bit) & 1 == 1) <==> ((mb >> bit) & 1 == 1));
        assert(((ma >> bit) & 1) == ((mb >> bit) & 1)) by (bit_vector)
            requires
                ((ma >> bit) & 1 == 1) <==> ((mb >> bit) & 1 == 1),
        ;
    }
    lemma_mask_of_high_bit(a);
    lemma_mask_of_high_bit(b);
    assert forall|bit: u32| 0 <= bit < 32 implies ((ma >> bit) & 1) == ((mb >> bit) & 1) by {
        if bit == 31 {
            assert((ma >> bit) & 1 == 0 && (mb >> bit) & 1 == 0);
        }
    }
    lemma_eq_above(ma, mb, 0);
    assert((ma >> 0u32) == ma && (mb >> 0u32) == mb) by (bit_vector);
}

/// A single id `g` in `[1, 31]` builds exactly the mask `1 << (g - 1)`:
/// that bit and no other.
pub proof fn lemma_single_group(g: u32)
    requires
        1 <= g <= MAX_GROUP_ID,
    ensures
        mask_of(seq![g]) == (1u32 << ((g - 1) as u32)),
        forall|h: u32| 1 <= h <= MAX_GROUP_ID ==> (#[trigger] mask_has(mask_of(seq![g]), h)
            <==> h == g),
{
    let s = seq![g];
    reveal_with_fuel(mask_of, 2);
    assert(s.drop_last() =~= Seq::<u32>::empty());
    assert(s.last() == g);
    assert(mask_of(Seq::<u32>::empty()) == 0u32);
    assert(mask_of(s) == (0u32 | group_bit(g)));
    assert((0u32 | (1u32 << ((g - 1) as u32))) == (1u32 << ((g - 1) as u32))) by (bit_vector);
    assert forall|h: u32| 1 <= h <= MAX_GROUP_ID implies (#[trigger] mask_has(mask_of(s), h)
        <==> h == g) by {
        lemma_mask_of_contains(s, h);
        assert(s.contains(h) <==> h == g) by {
            if s.contains(h) {
                let k = choose|k: int| 0 <= k < s.len() && s[k] == h;
                assert(k == 0);
            }
            assert(s[0] == g);
        }
    }
}

/// Round trip: decomposing a mask built from ids in range yields
/// exactly the ids of the input, with the reserved id 0 removed.
pub proof fn lemma_mask_round_trip(ids: Seq<u32>)
    requires
        forall|i: int| 0 <= i < ids.len() ==> ids[i] <= MAX_GROUP_ID,
    ensures
        forall|g: u32| #[trigger] groups_of(mask_of(ids)).contains(g) <==> (ids.contains(g)
            && g != 0),
{
    assert forall|g: u32| #[trigger] groups_of(mask_of(ids)).contains(g) <==> (ids.contains(g)
        && g != 0) by {
        if 1 <= g <= MAX_GROUP_ID {
            lemma_mask_of_contains(ids, g);
        } else {
            if ids.contains(g) {
                let k = choose|k: int| 0 <= k < ids.len() && ids[k] == g;
                assert(ids[k] <= MAX_GROUP_ID);
            }
        }
    }
}

} // verus!
