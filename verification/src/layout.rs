//! Geometry resolution for one apply pass: match profile entries to
//! attached outputs, build the parent-relative topology tree, compute
//! absolute pixel positions, and normalize them to non-negative
//! coordinates.

use vstd::prelude::*;
use vstd::pervasive::unreached;
use id_tree::NodeId;
use crate::output::{lemma_preferred_index_range, MonitorInformation, Snapshot};
use crate::position_tree::{
    node_data, tree_has_node, tree_insert_under, tree_node_data, tree_node_parent,
    tree_parent_map, tree_root_id, tree_shape_wf, tree_with_root, ROOT_DATA,
};
use crate::profile::{
    ident_matches, ident_matches_output, ScreenConfiguration, ScreensProfile, MAX_SCREENS,
};

verus! {

/// Where a matched screen hangs in the topology tree: directly under the
/// synthetic root, or under another matched screen, named by its slot.
#[derive(Clone, Copy, Debug, PartialEq, Eq, Structural)]
pub enum Attach {
    ToRoot,
    ToNode(usize),
}

/// First output index whose record the identifier matches, or `-1`.
pub open spec fn match_pos_from(
    outs: Seq<MonitorInformation>,
    ident: Seq<char>,
    i: int,
) -> int
    decreases outs.len() - i,
{
    if i < 0 || i >= outs.len() {
        -1
    } else if ident_matches(ident, outs[i]) {
        i
    } else {
        match_pos_from(outs, ident, i + 1)
    }
}

/// A screen entry takes part in the layout when some output matches its
/// identifier and no later entry of the profile carries the same
/// identifier (a later duplicate wins, as an ordered-map upsert would).
pub open spec fn included(screens: Seq<ScreenConfiguration>, snap: Snapshot, s: int) -> bool {
    &&& 0 <= s < screens.len()
    &&& match_pos_from(snap.outputs@, screens[s].identifier@, 0) >= 0
    &&& forall|s2: int|
        s < s2 < screens.len() ==> (#[trigger] screens[s2]).identifier@ != screens[s].identifier@
}

/// Slots of the layout: the included screen indices below `n`, ascending.
pub open spec fn matched_upto(
    screens: Seq<ScreenConfiguration>,
    snap: Snapshot,
    n: int,
) -> Seq<usize>
    decreases n,
{
    if n <= 0 {
        Seq::empty()
    } else if included(screens, snap, n - 1) {
        matched_upto(screens, snap, n - 1).push((n - 1) as usize)
    } else {
        matched_upto(screens, snap, n - 1)
    }
}

pub open spec fn matched_slots(screens: Seq<ScreenConfiguration>, snap: Snapshot) -> Seq<usize> {
    matched_upto(screens, snap, screens.len() as int)
}

/// First slot at or after `k` whose screen carries this identifier, or `-1`.
pub open spec fn parent_slot_from(
    screens: Seq<ScreenConfiguration>,
    matched: Seq<usize>,
    ident: Seq<char>,
    k: int,
) -> int
    decreases matched.len() - k,
{
    if k < 0 || k >= matched.len() {
        -1
    } else if screens[matched[k] as int].identifier@ == ident {
        k
    } else {
        parent_slot_from(screens, matched, ident, k + 1)
    }
}

/// Where slot `k` attaches: under its parent's slot when the parent
/// identifier names another matched screen, else directly under the root
/// (both for `Root` placements and for dangling parent references).
pub open spec fn attach_at(
    screens: Seq<ScreenConfiguration>,
    matched: Seq<usize>,
    k: int,
) -> Attach {
    match screens[matched[k] as int].position.parent_spec() {
        None => Attach::ToRoot,
        Some(p) => {
            let q = parent_slot_from(screens, matched, p, 0);
            if q >= 0 {
                Attach::ToNode(q as usize)
            } else {
                Attach::ToRoot
            }
        },
    }
}

/// Every slot of `matched_upto` is an included screen index below `n`,
/// and they stand in ascending order.
pub proof fn lemma_matched_upto_props(screens: Seq<ScreenConfiguration>, snap: Snapshot, n: int)
    requires
        n <= screens.len(),
        n <= usize::MAX,
    ensures
        forall|k: int|
            0 <= k < matched_upto(screens, snap, n).len() ==> included(
                screens,
                snap,
                #[trigger] matched_upto(screens, snap, n)[k] as int,
            ) && matched_upto(screens, snap, n)[k] < n,
        forall|k1: int, k2: int|
            0 <= k1 < k2 < matched_upto(screens, snap, n).len() ==> matched_upto(
                screens,
                snap,
                n,
            )[k1] < matched_upto(screens, snap, n)[k2],
        matched_upto(screens, snap, n).len() <= n || n < 0,
    decreases n,
{
    if n > 0 {
        lemma_matched_upto_props(screens, snap, n - 1);
        let prev = matched_upto(screens, snap, n - 1);
        let cur = matched_upto(screens, snap, n);
        if included(screens, snap, n - 1) {
            assert(cur == prev.push((n - 1) as usize));
            assert forall|k: int|
                0 <= k < cur.len() implies included(screens, snap, #[trigger] cur[k] as int)
                && cur[k] < n by {
                if k < prev.len() {
                    assert(cur[k] == prev[k]);
                } else {
                    assert(cur[k] == (n - 1) as usize);
                }
            }
            assert forall|k1: int, k2: int|
                0 <= k1 < k2 < cur.len() implies cur[k1] < cur[k2] by {
                if k2 < prev.len() {
                    assert(cur[k1] == prev[k1]);
                    assert(cur[k2] == prev[k2]);
                } else {
                    assert(cur[k1] == prev[k1]);
                    assert(cur[k2] == (n - 1) as usize);
                    assert(prev[k1] < n - 1);
                }
            }
        } else {
            assert(cur == prev);
        }
    }
}

/// Match the profile's entries against the snapshot. Returns the matched
/// slots (screen indices, ascending, later duplicates preferred) and, for
/// each, the first output index its identifier matches.
pub fn match_screens(profile: &ScreensProfile, snap: &Snapshot) -> (r: (Vec<usize>, Vec<usize>))
    ensures
        r.0@ == matched_slots(profile.screens@, *snap),
        r.1@.len() == r.0@.len(),
        forall|k: int|
            0 <= k < r.0@.len() ==> (#[trigger] r.0@[k]) < profile.screens@.len(),
        forall|k: int|
            0 <= k < r.1@.len() ==> r.1@[k] as int == match_pos_from(
                snap.outputs@,
                profile.screens@[r.0@[k] as int].identifier@,
                0,
            ) && (#[trigger] r.1@[k]) < snap.outputs@.len(),
{
    let n = profile.screens.len();
    let mut matched: Vec<usize> = Vec::new();
    let mut mons: Vec<usize> = Vec::new();
    let mut s: usize = 0;
    while s < n
        invariant
            0 <= s <= n,
            n == profile.screens@.len(),
            matched@ == matched_upto(profile.screens@, *snap, s as int),
            mons@.len() == matched@.len(),
            forall|k: int|
                0 <= k < matched@.len() ==> (#[trigger] matched@[k]) < n,
            forall|k: int|
                0 <= k < mons@.len() ==> mons@[k] as int == match_pos_from(
                    snap.outputs@,
                    profile.screens@[matched@[k] as int].identifier@,
                    0,
                ) && (#[trigger] mons@[k]) < snap.outputs@.len(),
        decreases n - s,
    {
        let first = first_match(snap, &profile.screens[s].identifier);
        let mut dup = false;
        let mut s2: usize = s + 1;
        while s2 < n
            invariant
                s < s2 <= n,
                n == profile.screens@.len(),
                dup <==> exists|t: int|
                    s < t < s2 && (#[trigger] profile.screens@[t]).identifier@
                        == profile.screens@[s as int].identifier@,
            decreases n - s2,
        {
            if profile.screens[s2].identifier == profile.screens[s].identifier {
                dup = true;
            }
            s2 += 1;
        }
        match first {
            Some(o) if !dup => {
                matched.push(s);
                mons.push(o);
            },
            _ => (),
        }
        proof {
            assert(matched@ == matched_upto(profile.screens@, *snap, s + 1));
        }
        s += 1;
    }
    (matched, mons)
}

/// First output the identifier matches, scanning in snapshot order.
fn first_match(snap: &Snapshot, ident: &String) -> (r: Option<usize>)
    ensures
        match r {
            Some(o) => o as int == match_pos_from(snap.outputs@, ident@, 0) && (o as int)
                < snap.outputs@.len(),
            None => match_pos_from(snap.outputs@, ident@, 0) == -1,
        },
{
    let n = snap.outputs.len();
    let mut o: usize = 0;
    while o < n
        invariant
            0 <= o <= n,
            n == snap.outputs@.len(),
            forall|i: int| 0 <= i < o ==> !ident_matches(ident@, #[trigger] snap.outputs@[i]),
            match_pos_from(snap.outputs@, ident@, 0) == match_pos_from(
                snap.outputs@,
                ident@,
                o as int,
            ),
        decreases n - o,
    {
        if ident_matches_output(ident, &snap.outputs[o]) {
            return Some(o);
        }
        o += 1;
    }
    None
}

/// Compute where every slot attaches, mirroring `attach_at` slot by slot.
pub fn build_attach(
    profile: &ScreensProfile,
    matched: &Vec<usize>,
) -> (att: Vec<Attach>)
    requires
        forall|k: int|
            0 <= k < matched@.len() ==> (#[trigger] matched@[k]) < profile.screens@.len(),
    ensures
        att@.len() == matched@.len(),
        forall|k: int|
            0 <= k < att@.len() ==> att@[k] == attach_at(profile.screens@, matched@, k),
        forall|k: int|
            0 <= k < att@.len() ==> ((#[trigger] att@[k]) matches Attach::ToNode(p) ==> p
                < matched@.len()),
{
    let m = matched.len();
    let mut att: Vec<Attach> = Vec::new();
    let mut k: usize = 0;
    while k < m
        invariant
            0 <= k <= m,
            m == matched@.len(),
            forall|t: int|
                0 <= t < matched@.len() ==> (#[trigger] matched@[t]) < profile.screens@.len(),
            att@.len() == k,
            forall|t: int|
                0 <= t < k ==> att@[t] == attach_at(profile.screens@, matched@, t),
            forall|t: int|
                0 <= t < k ==> ((#[trigger] att@[t]) matches Attach::ToNode(p) ==> p < m),
        decreases m - k,
    {
        let a = attach_of(profile, matched, k);
        att.push(a);
        k += 1;
    }
    att
}

/// Attach decision for one slot.
fn attach_of(profile: &ScreensProfile, matched: &Vec<usize>, k: usize) -> (a: Attach)
    requires
        0 <= k < matched@.len(),
        forall|t: int|
            0 <= t < matched@.len() ==> (#[trigger] matched@[t]) < profile.screens@.len(),
    ensures
        a == attach_at(profile.screens@, matched@, k as int),
        a matches Attach::ToNode(p) ==> p < matched@.len(),
{
    let m = matched.len();
    let screen = &profile.screens[matched[k]];
    let parent_ident: &String = match &screen.position {
        crate::geometry::ScreenPositionRelative::Root => {
            return Attach::ToRoot;
        },
        crate::geometry::ScreenPositionRelative::Over(identifier)
        | crate::geometry::ScreenPositionRelative::Under(identifier)
        | crate::geometry::ScreenPositionRelative::Left(identifier)
        | crate::geometry::ScreenPositionRelative::Right(identifier)
        | crate::geometry::ScreenPositionRelative::LeftOver(identifier)
        | crate::geometry::ScreenPositionRelative::LeftUnder(identifier)
        | crate::geometry::ScreenPositionRelative::RightOver(identifier)
        | crate::geometry::ScreenPositionRelative::RightUnder(identifier)
        | crate::geometry::ScreenPositionRelative::Mirror(identifier) => identifier,
    };
    let mut q: usize = 0;
    while q < m
        invariant
            0 <= q <= m,
            m == matched@.len(),
            forall|t: int|
                0 <= t < matched@.len() ==> (#[trigger] matched@[t]) < profile.screens@.len(),
            parent_ident@ == profile.screens@[matched@[k as int] as int].position.parent_spec()
                ->0,
            profile.screens@[matched@[k as int] as int].position.parent_spec() is Some,
            forall|t: int|
                0 <= t < q ==> profile.screens@[(#[trigger] matched@[t]) as int].identifier@
                    != parent_ident@,
            parent_slot_from(profile.screens@, matched@, parent_ident@, 0) == parent_slot_from(
                profile.screens@,
                matched@,
                parent_ident@,
                q as int,
            ),
        decreases m - q,
    {
        if profile.screens[matched[q]].identifier == *parent_ident {
            return Attach::ToNode(q);
        }
        q += 1;
    }
    // the parent identifier names no matched screen: attach under root
    Attach::ToRoot
}

/// Why a layout cannot be resolved.
#[derive(Clone, Copy, Debug, PartialEq, Eq, Structural)]
pub enum LayoutError {
    /// The parent references of the matched screens form a cycle, so no
    /// placement order exists. Detecting the cycle, instead of chasing the
    /// parent chain without end, is a deliberate design decision.
    CyclicPlacement,
}

/// Whether slot `k` reaches the root in at most `fuel` parent steps.
pub open spec fn rooted(att: Seq<Attach>, k: int, fuel: nat) -> bool
    decreases fuel,
{
    if 0 <= k < att.len() {
        match att[k] {
            Attach::ToRoot => true,
            Attach::ToNode(p) => fuel > 0 && rooted(att, p as int, (fuel - 1) as nat),
        }
    } else {
        true
    }
}

/// Every slot reaches the root: the attach relation is a forest, not a
/// cycle. Chains of distinct slots are shorter than the slot count, so
/// `att.len()` steps always suffice.
pub open spec fn all_rooted(att: Seq<Attach>) -> bool {
    forall|k: int| 0 <= k < att.len() ==> rooted(att, k, att.len() as nat)
}

/// A slot rooted within some budget is rooted within any larger budget.
pub proof fn lemma_rooted_monotone(att: Seq<Attach>, k: int, f1: nat, f2: nat)
    requires
        rooted(att, k, f1),
        f1 <= f2,
    ensures
        rooted(att, k, f2),
    decreases f1,
{
    if 0 <= k < att.len() {
        match att[k] {
            Attach::ToRoot => {},
            Attach::ToNode(p) => {
                lemma_rooted_monotone(att, p as int, (f1 - 1) as nat, (f2 - 1) as nat);
            },
        }
    }
}

/// When every unplaced slot hangs under another unplaced slot, no
/// unplaced slot ever reaches the root.
proof fn lemma_stuck_unrooted(att: Seq<Attach>, placed: Seq<bool>, k: int, fuel: nat)
    requires
        placed.len() == att.len(),
        0 <= k < att.len(),
        !placed[k],
        forall|t: int|
            0 <= t < att.len() && !placed[t] ==> !((#[trigger] att[t]) is ToRoot),
        forall|t: int|
            0 <= t < att.len() && !placed[t] ==> ((#[trigger] att[t]) matches Attach::ToNode(p)
                ==> 0 <= p < att.len() && !placed[p as int]),
    ensures
        !rooted(att, k, fuel),
    decreases fuel,
{
    match att[k] {
        Attach::ToRoot => {},
        Attach::ToNode(p) => {
            if fuel > 0 {
                lemma_stuck_unrooted(att, placed, p as int, (fuel - 1) as nat);
            }
        },
    }
}

/// Some position of `order` holds slot `k`.
pub open spec fn appears(order: Seq<usize>, k: int) -> bool {
    exists|q: int| 0 <= q < order.len() && order[q] == k
}

/// Some position of `order` before `bound` holds slot `k`.
pub open spec fn appears_before(order: Seq<usize>, k: int, bound: int) -> bool {
    exists|q: int| 0 <= q < bound && q < order.len() && order[q] == k
}

/// Number of `true` entries.
pub open spec fn count_true(s: Seq<bool>) -> int
    decreases s.len(),
{
    if s.len() == 0 {
        0
    } else {
        count_true(s.drop_last()) + if s.last() {
            1int
        } else {
            0int
        }
    }
}

proof fn lemma_count_true_le(s: Seq<bool>)
    ensures
        0 <= count_true(s) <= s.len(),
    decreases s.len(),
{
    if s.len() > 0 {
        lemma_count_true_le(s.drop_last());
    }
}

proof fn lemma_count_true_full(s: Seq<bool>)
    requires
        count_true(s) == s.len(),
    ensures
        forall|i: int| 0 <= i < s.len() ==> s[i],
    decreases s.len(),
{
    if s.len() > 0 {
        lemma_count_true_le(s.drop_last());
        lemma_count_true_full(s.drop_last());
        assert forall|i: int| 0 <= i < s.len() implies s[i] by {
            if i < s.len() - 1 {
                assert(s.drop_last()[i]);
            }
        }
    }
}

proof fn lemma_count_true_set(s: Seq<bool>, i: int)
    requires
        0 <= i < s.len(),
        !s[i],
    ensures
        count_true(s.update(i, true)) == count_true(s) + 1,
    decreases s.len(),
{
    let u = s.update(i, true);
    if i == s.len() - 1 {
        assert(u.drop_last() =~= s.drop_last());
    } else {
        assert(u.drop_last() =~= s.drop_last().update(i, true));
        lemma_count_true_set(s.drop_last(), i);
    }
}

/// Compute a placement order: every slot after its parent. Fails exactly
/// when the attach relation has a cycle.
fn order_slots(att: &Vec<Attach>) -> (r: Result<Vec<usize>, LayoutError>)
    requires
        forall|k: int|
            0 <= k < att@.len() ==> ((#[trigger] att@[k]) matches Attach::ToNode(p) ==> p
                < att@.len()),
    ensures
        match r {
            Ok(order) => {
                &&& all_rooted(att@)
                &&& order@.len() <= att@.len()
                &&& forall|q: int| 0 <= q < order@.len() ==> (#[trigger] order@[q]) < att@.len()
                &&& forall|q1: int, q2: int|
                    0 <= q1 < q2 < order@.len() ==> order@[q1] != order@[q2]
                &&& forall|q: int|
                    0 <= q < order@.len() ==> ((#[trigger] att@[order@[q] as int]) matches
                    Attach::ToNode(p) ==> appears_before(order@, p as int, q))
                &&& forall|q: int|
                    0 <= q < order@.len() ==> rooted(att@, #[trigger] order@[q] as int, q as nat)
                &&& forall|k: int| 0 <= k < att@.len() ==> #[trigger] appears(order@, k)
            },
            Err(e) => e == LayoutError::CyclicPlacement && !all_rooted(att@),
        },
{
    let m = att.len();
    let mut placed: Vec<bool> = Vec::new();
    let mut i: usize = 0;
    while i < m
        invariant
            0 <= i <= m,
            placed@.len() == i,
            forall|k: int| 0 <= k < i ==> !(#[trigger] placed@[k]),
        decreases m - i,
    {
        placed.push(false);
        i += 1;
    }
    proof {
        lemma_count_true_zero(placed@);
    }
    let mut order: Vec<usize> = Vec::new();
    let mut complete = false;
    loop
        invariant_except_break
            m == att@.len(),
            placed@.len() == m,
            !complete,
            count_true(placed@) == order@.len(),
            order@.len() <= m,
            forall|k: int|
                0 <= k < att@.len() ==> ((#[trigger] att@[k]) matches Attach::ToNode(p) ==> p
                    < att@.len()),
            forall|k: int|
                0 <= k < m ==> ((#[trigger] placed@[k]) <==> appears(order@, k)),
            forall|q: int| 0 <= q < order@.len() ==> (#[trigger] order@[q]) < m,
            forall|q1: int, q2: int| 0 <= q1 < q2 < order@.len() ==> order@[q1] != order@[q2],
            forall|q: int|
                0 <= q < order@.len() ==> ((#[trigger] att@[order@[q] as int]) matches
                Attach::ToNode(p) ==> appears_before(order@, p as int, q)),
            forall|q: int|
                0 <= q < order@.len() ==> rooted(att@, #[trigger] order@[q] as int, q as nat),
        ensures
            m == att@.len(),
            placed@.len() == m,
            count_true(placed@) == order@.len(),
            order@.len() <= m,
            forall|k: int|
                0 <= k < m ==> ((#[trigger] placed@[k]) <==> appears(order@, k)),
            forall|q: int| 0 <= q < order@.len() ==> (#[trigger] order@[q]) < m,
            forall|q1: int, q2: int| 0 <= q1 < q2 < order@.len() ==> order@[q1] != order@[q2],
            forall|q: int|
                0 <= q < order@.len() ==> ((#[trigger] att@[order@[q] as int]) matches
                Attach::ToNode(p) ==> appears_before(order@, p as int, q)),
            forall|q: int|
                0 <= q < order@.len() ==> rooted(att@, #[trigger] order@[q] as int, q as nat),
            complete ==> order@.len() == m,
            !complete ==> forall|t: int|
                0 <= t < att@.len() && !placed@[t] ==> match #[trigger] att@[t] {
                    Attach::ToRoot => false,
                    Attach::ToNode(p) => !placed@[p as int],
                },
        decreases m - order@.len(),
    {
        let mut found: Option<usize> = None;
        let mut k: usize = 0;
        while k < m
            invariant
                0 <= k <= m,
                m == att@.len(),
                placed@.len() == m,
                forall|t: int|
                    0 <= t < att@.len() ==> ((#[trigger] att@[t]) matches Attach::ToNode(p)
                        ==> p < att@.len()),
                match found {
                    Some(f) => {
                        &&& f < m
                        &&& !placed@[f as int]
                        &&& match att@[f as int] {
                            Attach::ToRoot => true,
                            Attach::ToNode(p) => placed@[p as int],
                        }
                    },
                    None => forall|t: int|
                        0 <= t < k && !placed@[t] ==> match #[trigger] att@[t] {
                            Attach::ToRoot => false,
                            Attach::ToNode(p) => !placed@[p as int],
                        },
                },
            decreases m - k,
        {
            if found.is_none() && !placed[k] {
                let ok = match att[k] {
                    Attach::ToRoot => true,
                    Attach::ToNode(p) => placed[p],
                };
                if ok {
                    found = Some(k);
                }
            }
            k += 1;
        }
        match found {
            Some(f) => {
                let ghost q_new = order@.len() as int;
                let ghost pold = placed@;
                let ghost oold = order@;
                proof {
                    lemma_count_true_set(placed@, f as int);
                    lemma_count_true_le(placed@);
                    match att@[f as int] {
                        Attach::ToRoot => {
                            assert(rooted(att@, f as int, q_new as nat));
                        },
                        Attach::ToNode(p) => {
                            assert(appears(order@, p as int));
                            let q2 = choose|q2: int|
                                0 <= q2 < order@.len() && order@[q2] == p as int;
                            lemma_rooted_monotone(att@, p as int, q2 as nat, (q_new - 1) as nat);
                            assert(rooted(att@, f as int, q_new as nat));
                        },
                    }
                }
                placed.set(f, true);
                order.push(f);
                proof {
                    assert(placed@ == pold.update(f as int, true));
                    assert(order@ == oold.push(f));
                    lemma_count_true_le(placed@);
                    assert forall|k: int|
                        0 <= k < m implies ((#[trigger] placed@[k]) <==> appears(
                        order@,
                        k,
                    )) by {
                        if k == f as int {
                            assert(order@[order@.len() - 1] == f);
                            assert(appears(order@, k));
                        } else {
                            assert(placed@[k] == pold[k]);
                            if pold[k] {
                                assert(appears(oold, k));
                                let q = choose|q: int| 0 <= q < oold.len() && oold[q] == k;
                                assert(order@[q] == k);
                                assert(appears(order@, k));
                            }
                            if appears(order@, k) {
                                let q = choose|q: int|
                                    0 <= q < order@.len() && order@[q] == k;
                                assert(q < oold.len());
                                assert(oold[q] == k);
                                assert(appears(oold, k));
                            }
                        }
                    }
                    assert forall|q: int|
                        0 <= q < order@.len() implies (#[trigger] order@[q]) < m by {
                        if q < oold.len() {
                            assert(order@[q] == oold[q]);
                        } else {
                            assert(order@[q] == f);
                        }
                    }
                    assert forall|q1: int, q2: int|
                        0 <= q1 < q2 < order@.len() implies order@[q1] != order@[q2] by {
                        assert(order@[q1] == oold[q1]);
                        if q2 < oold.len() {
                            assert(order@[q2] == oold[q2]);
                        } else {
                            assert(order@[q2] == f);
                            assert(appears(oold, oold[q1] as int));
                            assert(pold[oold[q1] as int]);
                        }
                    }
                    assert forall|q: int|
                        0 <= q < order@.len() implies ((#[trigger] att@[order@[q] as int])
                        matches Attach::ToNode(p) ==> appears_before(order@, p as int, q)) by {
                        if q < oold.len() {
                            assert(order@[q] == oold[q]);
                            match att@[oold[q] as int] {
                                Attach::ToNode(p) => {
                                    assert(appears_before(oold, p as int, q));
                                    let q2 = choose|q2: int|
                                        0 <= q2 < q && q2 < oold.len() && oold[q2] == p as int;
                                    assert(order@[q2] == oold[q2]);
                                    assert(appears_before(order@, p as int, q));
                                },
                                _ => {},
                            }
                        } else {
                            match att@[f as int] {
                                Attach::ToNode(p) => {
                                    assert(appears(oold, p as int));
                                    let q2 = choose|q2: int|
                                        0 <= q2 < oold.len() && oold[q2] == p as int;
                                    assert(order@[q2] == oold[q2]);
                                    assert(appears_before(order@, p as int, q));
                                },
                                _ => {},
                            }
                        }
                    }
                    assert forall|q: int|
                        0 <= q < order@.len() implies rooted(
                        att@,
                        #[trigger] order@[q] as int,
                        q as nat,
                    ) by {
                        if q < oold.len() {
                            assert(order@[q] == oold[q]);
                        } else {
                            assert(order@[q] == f);
                        }
                    }
                }
                if order.len() == m {
                    complete = true;
                    break ;
                }
            },
            None => {
                break ;
            },
        }
    }
    if complete {
        proof {
            assert forall|k: int| 0 <= k < att@.len() implies #[trigger] appears(order@, k) by {
                lemma_count_true_full(placed@);
                assert(placed@[k]);
            }
            assert forall|k: int|
                0 <= k < att@.len() implies rooted(att@, k, att@.len() as nat) by {
                assert(appears(order@, k));
                let q = choose|q: int| 0 <= q < order@.len() && order@[q] == k;
                lemma_rooted_monotone(att@, k, q as nat, att@.len() as nat);
            }
        }
        return Ok(order);
    }
    // look for a slot that was never placed: if none remains the order is
    // complete after all, else the unplaced slots hang under one another
    let mut all = true;
    let mut witness: usize = 0;
    let mut k: usize = 0;
    while k < m
        invariant
            0 <= k <= m,
            m == att@.len(),
            placed@.len() == m,
            all ==> forall|t: int| 0 <= t < k ==> placed@[t],
            !all ==> witness < m && !placed@[witness as int],
        decreases m - k,
    {
        if !placed[k] {
            if all {
                all = false;
                witness = k;
            }
        }
        k += 1;
    }
    if all {
        proof {
            assert forall|k2: int| 0 <= k2 < att@.len() implies #[trigger] appears(
                order@,
                k2,
            ) by {
                assert(placed@[k2]);
            }
            assert forall|k2: int|
                0 <= k2 < att@.len() implies rooted(att@, k2, att@.len() as nat) by {
                assert(appears(order@, k2));
                let q = choose|q: int| 0 <= q < order@.len() && order@[q] == k2;
                lemma_rooted_monotone(att@, k2, q as nat, att@.len() as nat);
            }
        }
        return Ok(order);
    }
    proof {
        assert(!rooted(att@, witness as int, att@.len() as nat)) by {
            lemma_stuck_unrooted(att@, placed@, witness as int, att@.len() as nat);
        }
    }
    Err(LayoutError::CyclicPlacement)
}

proof fn lemma_count_true_zero(s: Seq<bool>)
    requires
        forall|i: int| 0 <= i < s.len() ==> !(#[trigger] s[i]),
    ensures
        count_true(s) == 0,
    decreases s.len(),
{
    if s.len() > 0 {
        lemma_count_true_zero(s.drop_last());
    }
}

/// Effective (rotated) pixel size of slot `k`: its preferred mode's size
/// passed through its own rotation when the entry is enabled, else zero.
pub open spec fn eff_at(
    screens: Seq<ScreenConfiguration>,
    snap: Snapshot,
    matched: Seq<usize>,
    mons: Seq<usize>,
    k: int,
) -> (int, int) {
    let conf = screens[matched[k] as int];
    if conf.enabled {
        let mode = snap.outputs@[mons[k] as int].preffered_mode_spec();
        conf.rotation.transform_size_spec((mode.size.0 as int, mode.size.1 as int))
    } else {
        (0, 0)
    }
}

/// Offset rule of slot `k` against its parent's effective size.
pub open spec fn off_at(
    screens: Seq<ScreenConfiguration>,
    snap: Snapshot,
    matched: Seq<usize>,
    mons: Seq<usize>,
    att: Seq<Attach>,
    k: int,
) -> (int, int) {
    let parent_eff = match att[k] {
        Attach::ToRoot => (0int, 0int),
        Attach::ToNode(p) => eff_at(screens, snap, matched, mons, p as int),
    };
    screens[matched[k] as int].position.offset_spec(
        parent_eff,
        eff_at(screens, snap, matched, mons, k),
    )
}

pub open spec fn offsets_of(
    screens: Seq<ScreenConfiguration>,
    snap: Snapshot,
    matched: Seq<usize>,
    mons: Seq<usize>,
    att: Seq<Attach>,
) -> Seq<(int, int)> {
    Seq::new(att.len(), |k: int| off_at(screens, snap, matched, mons, att, k))
}

/// Absolute position of slot `k` before normalization: root-attached slots
/// sit at the origin, every other slot at its parent's position plus its
/// offset rule. `fuel` bounds the parent chain.
pub open spec fn raw_pos(att: Seq<Attach>, offs: Seq<(int, int)>, k: int, fuel: nat) -> (int, int)
    decreases fuel,
{
    if 0 <= k < att.len() {
        match att[k] {
            Attach::ToRoot => (0, 0),
            Attach::ToNode(p) => if fuel > 0 {
                let pp = raw_pos(att, offs, p as int, (fuel - 1) as nat);
                (pp.0 + offs[k].0, pp.1 + offs[k].1)
            } else {
                (0, 0)
            },
        }
    } else {
        (0, 0)
    }
}

/// The position of slot `k`, with enough fuel for any rooted chain.
pub open spec fn slot_pos(att: Seq<Attach>, offs: Seq<(int, int)>, k: int) -> (int, int) {
    raw_pos(att, offs, k, att.len() as nat)
}

/// Once a slot's chain reaches the root within the budget, more fuel does
/// not change its position.
pub proof fn lemma_raw_pos_stable(
    att: Seq<Attach>,
    offs: Seq<(int, int)>,
    k: int,
    f1: nat,
    f2: nat,
)
    requires
        rooted(att, k, f1),
        f1 <= f2,
    ensures
        raw_pos(att, offs, k, f2) == raw_pos(att, offs, k, f1),
    decreases f1,
{
    if 0 <= k < att.len() {
        match att[k] {
            Attach::ToRoot => {},
            Attach::ToNode(p) => {
                lemma_raw_pos_stable(att, offs, p as int, (f1 - 1) as nat, (f2 - 1) as nat);
            },
        }
    }
}

/// Payload the parent of a slot's tree node must carry.
pub open spec fn parent_data_of(a: Attach) -> u64 {
    match a {
        Attach::ToRoot => ROOT_DATA,
        Attach::ToNode(p) => p as u64,
    }
}

/// A slot number below `bound` in `order` carries payload `d`.
pub open spec fn placed_data(order: Seq<usize>, bound: int, d: u64) -> bool {
    exists|q: int| 0 <= q < bound && q < order.len() && (#[trigger] order[q]) as u64 == d
}

/// Effective sizes of every slot, in slot order; components non-negative.
fn eff_sizes(
    profile: &ScreensProfile,
    snap: &Snapshot,
    matched: &Vec<usize>,
    mons: &Vec<usize>,
) -> (r: Vec<(i32, i32)>)
    requires
        snap.wf(),
        matched@.len() == mons@.len(),
        forall|k: int|
            0 <= k < matched@.len() ==> (#[trigger] matched@[k]) < profile.screens@.len(),
        forall|k: int| 0 <= k < mons@.len() ==> (#[trigger] mons@[k]) < snap.outputs@.len(),
    ensures
        r@.len() == matched@.len(),
        forall|k: int|
            0 <= k < r@.len() ==> ((#[trigger] r@[k]).0 as int, r@[k].1 as int) == eff_at(
                profile.screens@,
                *snap,
                matched@,
                mons@,
                k,
            ) && r@[k].0 >= 0 && r@[k].1 >= 0,
{
    let m = matched.len();
    let mut r: Vec<(i32, i32)> = Vec::new();
    let mut k: usize = 0;
    while k < m
        invariant
            0 <= k <= m,
            m == matched@.len(),
            m == mons@.len(),
            snap.wf(),
            forall|t: int|
                0 <= t < matched@.len() ==> (#[trigger] matched@[t]) < profile.screens@.len(),
            forall|t: int| 0 <= t < mons@.len() ==> (#[trigger] mons@[t]) < snap.outputs@.len(),
            r@.len() == k,
            forall|t: int|
                0 <= t < k ==> ((#[trigger] r@[t]).0 as int, r@[t].1 as int) == eff_at(
                    profile.screens@,
                    *snap,
                    matched@,
                    mons@,
                    t,
                ) && r@[t].0 >= 0 && r@[t].1 >= 0,
        decreases m - k,
    {
        let conf = &profile.screens[matched[k]];
        let e: (i32, i32) = if conf.enabled {
            let out = &snap.outputs[mons[k]];
            proof {
                assert(out.wf());
                lemma_preferred_index_range(out.modes@, 0);
            }
            let mode = out.preffered_mode();
            conf.rotation.transform_size(*mode.size())
        } else {
            (0, 0)
        };
        r.push(e);
        k += 1;
    }
    r
}

/// Resolve the absolute pre-normalization position of every slot. The
/// topology tree is built in the placement order and the positions are
/// read back through its parent links. Fails exactly when the parent
/// references form a cycle.
#[verifier::loop_isolation(false)]
#[verifier::rlimit(100)]
pub fn resolve_raw(
    profile: &ScreensProfile,
    snap: &Snapshot,
    matched: &Vec<usize>,
    mons: &Vec<usize>,
    att: &Vec<Attach>,
) -> (r: Result<Vec<(i64, i64)>, LayoutError>)
    requires
        snap.wf(),
        profile.screens@.len() <= MAX_SCREENS,
        matched@.len() == mons@.len(),
        matched@.len() == att@.len(),
        matched@.len() <= profile.screens@.len(),
        forall|k: int|
            0 <= k < matched@.len() ==> (#[trigger] matched@[k]) < profile.screens@.len(),
        forall|k: int| 0 <= k < mons@.len() ==> (#[trigger] mons@[k]) < snap.outputs@.len(),
        forall|k: int|
            0 <= k < att@.len() ==> ((#[trigger] att@[k]) matches Attach::ToNode(p) ==> p
                < att@.len()),
    ensures
        match r {
            Ok(raw) => {
                &&& all_rooted(att@)
                &&& raw@.len() == att@.len()
                &&& forall|k: int|
                    0 <= k < raw@.len() ==> ((#[trigger] raw@[k]).0 as int, raw@[k].1 as int)
                        == slot_pos(
                        att@,
                        offsets_of(profile.screens@, *snap, matched@, mons@, att@),
                        k,
                    )
                &&& forall|k: int|
                    0 <= k < raw@.len() ==> -0x2000_0000_0000_0000 <= (#[trigger] raw@[k]).0
                        <= 0x2000_0000_0000_0000 && -0x2000_0000_0000_0000 <= raw@[k].1
                        <= 0x2000_0000_0000_0000
            },
            Err(e) => e == LayoutError::CyclicPlacement && !all_rooted(att@),
        },
{
    let ghost offs = offsets_of(profile.screens@, *snap, matched@, mons@, att@);
    let m = matched.len();
    let eff = eff_sizes(profile, snap, matched, mons);
    let order = match order_slots(att) {
        Ok(o) => o,
        Err(e) => {
            return Err(e);
        },
    };
    let mut tree = tree_with_root();
    let root = tree_root_id(&tree);
    let mut handles: Vec<Option<NodeId>> = Vec::new();
    let mut i: usize = 0;
    while i < m
        invariant
            0 <= i <= m,
            handles@.len() == i,
            forall|k: int| 0 <= k < i ==> (#[trigger] handles@[k]) is None,
        decreases m - i,
    {
        handles.push(None);
        i += 1;
    }
    let mut qi: usize = 0;
    while qi < order.len()
        invariant
            0 <= qi <= order@.len(),
            tree_shape_wf(tree),
            tree_has_node(tree, root),
            node_data(tree, root) == ROOT_DATA,
            handles@.len() == m,
            forall|k: int|
                0 <= k < m ==> (((#[trigger] handles@[k]) is Some) <==> appears_before(
                    order@,
                    k,
                    qi as int,
                )),
            forall|k: int|
                0 <= k < m ==> ((#[trigger] handles@[k]) matches Some(id) ==> tree_has_node(
                    tree,
                    id,
                ) && node_data(tree, id) == k as u64),
            forall|d: u64|
                #[trigger] tree_parent_map(tree).dom().contains(d) <==> placed_data(
                    order@,
                    qi as int,
                    d,
                ),
            forall|q: int|
                0 <= q < qi ==> tree_parent_map(tree)[(#[trigger] order@[q]) as u64]
                    == parent_data_of(att@[order@[q] as int]),
        decreases order@.len() - qi,
    {
        let t = order[qi];
        proof {
            if placed_data(order@, qi as int, t as u64) {
                let q = choose|q: int|
                    0 <= q < qi && q < order@.len() && (order@[q]) as u64 == t as u64;
                assert(order@[q] == order@[qi as int]);
                assert(false);
            }
        }
        let parent_handle: &NodeId = match att[t] {
            Attach::ToRoot => &root,
            Attach::ToNode(p) => {
                proof {
                    assert(appears_before(order@, p as int, qi as int));
                }
                match &handles[p] {
                    Some(pid) => pid,
                    None => unreached(),
                }
            },
        };
        proof {
            assert(node_data(tree, *parent_handle) == parent_data_of(att@[t as int]));
        }
        let node_id = tree_insert_under(&mut tree, t as u64, parent_handle);
        let ghost hpre = handles@;
        handles.set(t, Some(node_id));
        proof {
            assert(tree_has_node(tree, root));
            assert(node_data(tree, root) == ROOT_DATA);
            assert forall|k: int|
                0 <= k < m implies ((#[trigger] handles@[k]) matches Some(id)
                ==> tree_has_node(tree, id) && node_data(tree, id) == k as u64) by {
                if k == t as int {
                    assert(handles@[k] == Some(node_id));
                } else {
                    assert(handles@[k] == hpre[k]);
                    match hpre[k] {
                        Some(id) => {
                            assert(tree_has_node(tree, id));
                            assert(node_data(tree, id) == k as u64);
                        },
                        None => {},
                    }
                }
            }
            assert forall|k: int|
                0 <= k < m implies (((#[trigger] handles@[k]) is Some) <==> appears_before(
                order@,
                k,
                qi + 1,
            )) by {
                if k == t as int {
                    assert(order@[qi as int] == t);
                } else {
                    if appears_before(order@, k, qi + 1) {
                        let q = choose|q: int|
                            0 <= q < qi + 1 && q < order@.len() && order@[q] == k;
                        assert(q < qi);
                        assert(appears_before(order@, k, qi as int));
                    }
                }
            }
            assert forall|d: u64|
                #[trigger] tree_parent_map(tree).dom().contains(d) implies placed_data(
                order@,
                qi + 1,
                d,
            ) by {
                if d == t as u64 {
                    assert(order@[qi as int] as u64 == d);
                } else {
                    assert(placed_data(order@, qi as int, d));
                }
            }
            assert forall|d: u64|
                placed_data(order@, qi + 1, d) implies #[trigger] tree_parent_map(
                tree,
            ).dom().contains(d) by {
                let q = choose|q: int|
                    0 <= q < qi + 1 && q < order@.len() && (order@[q]) as u64 == d;
                if q < qi {
                    assert(placed_data(order@, qi as int, d));
                } else {
                    assert(d == t as u64);
                }
            }
            assert forall|q: int|
                0 <= q < qi + 1 implies tree_parent_map(tree)[(#[trigger] order@[q]) as u64]
                == parent_data_of(att@[order@[q] as int]) by {
                if q < qi {
                    assert(order@[q] != t);
                    assert(order@[q] as u64 != t as u64);
                }
            }
        }
        qi += 1;
    }
    let mut raw: Vec<(i64, i64)> = Vec::new();
    let mut i2: usize = 0;
    while i2 < m
        invariant
            0 <= i2 <= m,
            raw@.len() == i2,
        decreases m - i2,
    {
        raw.push((0, 0));
        i2 += 1;
    }
    let mut q2: usize = 0;
    while q2 < order.len()
        invariant
            0 <= q2 <= order@.len(),
            raw@.len() == m,
            forall|q: int|
                0 <= q < q2 ==> ((#[trigger] raw@[order@[q] as int]).0 as int,
                raw@[order@[q] as int].1 as int) == raw_pos(att@, offs, order@[q] as int, q as nat),
            forall|q: int|
                0 <= q < q2 ==> -0x8000_0000 * (q + 1) <= (#[trigger] raw@[order@[q] as int]).0
                    <= 0x8000_0000 * (q + 1) && -0x8000_0000 * (q + 1)
                    <= raw@[order@[q] as int].1 <= 0x8000_0000 * (q + 1),
        decreases order@.len() - q2,
    {
        let t = order[q2];
        proof {
            assert(appears_before(order@, t as int, order@.len() as int));
        }
        let id = match &handles[t] {
            Some(id) => id,
            None => unreached(),
        };
        match tree_node_parent(&tree, id) {
            None => {
                proof {
                    assert(false);
                }
            },
            Some(pid) => {
                let pdata = tree_node_data(&tree, &pid);
                proof {
                    assert(tree_parent_map(tree)[t as u64] == parent_data_of(
                        att@[t as int],
                    ));
                }
                if pdata == 0xffff_ffff_ffff_ffffu64 {
                    proof {
                        assert(att@[t as int] is ToRoot);
                    }
                    raw.set(t, (0, 0));
                    proof {
                        assert forall|q: int|
                            0 <= q < q2 + 1 implies ((#[trigger] raw@[order@[q] as int]).0
                            as int, raw@[order@[q] as int].1 as int) == raw_pos(
                            att@,
                            offs,
                            order@[q] as int,
                            q as nat,
                        ) by {
                            if q < q2 {
                                assert(order@[q] != t);
                            }
                        }
                    }
                } else {
                    proof {
                        assert(att@[t as int] matches Attach::ToNode(pp) && pp as u64
                            == pdata);
                    }
                    let p = pdata as usize;
                    let ghost qp = choose|qp: int|
                        0 <= qp < q2 && qp < order@.len() && order@[qp] == p as int;
                    proof {
                        assert(att@[order@[q2 as int] as int] matches Attach::ToNode(pz)
                            && appears_before(order@, pz as int, q2 as int));
                    }
                    let off = profile.screens[matched[t]].position.offset(eff[p], eff[t]);
                    let parent_pos = raw[p];
                    proof {
                        assert(order@[qp] == p);
                        assert(-0x8000_0000 * (qp + 1) <= parent_pos.0 <= 0x8000_0000 * (qp
                            + 1));
                        assert(qp + 1 <= q2);
                    }
                    let nx = parent_pos.0 + off.0 as i64;
                    let ny = parent_pos.1 + off.1 as i64;
                    raw.set(t, (nx, ny));
                    proof {
                        lemma_raw_pos_stable(att@, offs, p as int, qp as nat, (q2 - 1) as nat);
                        assert(offs[t as int] == off_at(
                            profile.screens@,
                            *snap,
                            matched@,
                            mons@,
                            att@,
                            t as int,
                        ));
                        assert forall|q: int|
                            0 <= q < q2 + 1 implies ((#[trigger] raw@[order@[q] as int]).0
                            as int, raw@[order@[q] as int].1 as int) == raw_pos(
                            att@,
                            offs,
                            order@[q] as int,
                            q as nat,
                        ) by {
                            if q < q2 {
                                assert(order@[q] != t);
                            }
                        }
                    }
                }
            },
        }
        q2 += 1;
    }
    proof {
        assert forall|k: int|
            0 <= k < raw@.len() implies ((#[trigger] raw@[k]).0 as int, raw@[k].1 as int)
            == slot_pos(att@, offs, k) && -0x2000_0000_0000_0000 <= raw@[k].0
            <= 0x2000_0000_0000_0000 && -0x2000_0000_0000_0000 <= raw@[k].1
            <= 0x2000_0000_0000_0000 by {
            assert(appears(order@, k));
            let q = choose|q: int| 0 <= q < order@.len() && order@[q] == k;
            lemma_raw_pos_stable(att@, offs, k, q as nat, att@.len() as nat);
        }
    }
    Ok(raw)
}

/// A slot attached under a parent resolves to the parent's position plus
/// its own offset rule.
pub proof fn lemma_child_offset(
    screens: Seq<ScreenConfiguration>,
    snap: Snapshot,
    matched: Seq<usize>,
    mons: Seq<usize>,
    att: Seq<Attach>,
    k: int,
)
    requires
        all_rooted(att),
        0 <= k < att.len(),
        att[k] is ToNode,
    ensures
        ({
            let offs = offsets_of(screens, snap, matched, mons, att);
            let p = att[k]->0 as int;
            &&& slot_pos(att, offs, k).0 == slot_pos(att, offs, p).0 + off_at(
                screens,
                snap,
                matched,
                mons,
                att,
                k,
            ).0
            &&& slot_pos(att, offs, k).1 == slot_pos(att, offs, p).1 + off_at(
                screens,
                snap,
                matched,
                mons,
                att,
                k,
            ).1
        }),
{
    let offs = offsets_of(screens, snap, matched, mons, att);
    let p = att[k]->0 as int;
    assert(rooted(att, k, att.len() as nat));
    assert(rooted(att, p, (att.len() - 1) as nat));
    lemma_raw_pos_stable(att, offs, p, (att.len() - 1) as nat, att.len() as nat);
}

/// Relative-position offset law: a slot placed `Right` of its parent
/// resolves, before normalization, to the parent's x plus the parent's
/// effective width, at the parent's y.
pub proof fn lemma_right_offset(
    screens: Seq<ScreenConfiguration>,
    snap: Snapshot,
    matched: Seq<usize>,
    mons: Seq<usize>,
    att: Seq<Attach>,
    k: int,
)
    requires
        all_rooted(att),
        0 <= k < att.len(),
        0 <= matched[k] < screens.len(),
        att[k] is ToNode,
        screens[matched[k] as int].position is Right,
    ensures
        ({
            let offs = offsets_of(screens, snap, matched, mons, att);
            let p = att[k]->0 as int;
            &&& slot_pos(att, offs, k).0 == slot_pos(att, offs, p).0 + eff_at(
                screens,
                snap,
                matched,
                mons,
                p,
            ).0
            &&& slot_pos(att, offs, k).1 == slot_pos(att, offs, p).1
        }),
{
    lemma_child_offset(screens, snap, matched, mons, att, k);
}

/// Mirror law: a mirror slot inherits its parent's absolute position
/// exactly, whatever its own effective size.
pub proof fn lemma_mirror_inherits(
    screens: Seq<ScreenConfiguration>,
    snap: Snapshot,
    matched: Seq<usize>,
    mons: Seq<usize>,
    att: Seq<Attach>,
    k: int,
)
    requires
        all_rooted(att),
        0 <= k < att.len(),
        0 <= matched[k] < screens.len(),
        att[k] is ToNode,
        screens[matched[k] as int].position is Mirror,
    ensures
        ({
            let offs = offsets_of(screens, snap, matched, mons, att);
            let p = att[k]->0 as int;
            slot_pos(att, offs, k) == slot_pos(att, offs, p)
        }),
{
    lemma_child_offset(screens, snap, matched, mons, att, k);
}

/// Smallest first component among the positions.
pub open spec fn min_x_of(s: Seq<(i64, i64)>) -> int
    decreases s.len(),
{
    if s.len() <= 1 {
        s[0].0 as int
    } else {
        let m = min_x_of(s.drop_last());
        if s.last().0 < m {
            s.last().0 as int
        } else {
            m
        }
    }
}

/// Smallest second component among the positions.
pub open spec fn min_y_of(s: Seq<(i64, i64)>) -> int
    decreases s.len(),
{
    if s.len() <= 1 {
        s[0].1 as int
    } else {
        let m = min_y_of(s.drop_last());
        if s.last().1 < m {
            s.last().1 as int
        } else {
            m
        }
    }
}

/// The minimum bounds every entry and is attained by one.
pub proof fn lemma_min_props(s: Seq<(i64, i64)>)
    requires
        s.len() > 0,
    ensures
        forall|k: int| 0 <= k < s.len() ==> min_x_of(s) <= (#[trigger] s[k]).0,
        forall|k: int| 0 <= k < s.len() ==> min_y_of(s) <= (#[trigger] s[k]).1,
        exists|k: int| 0 <= k < s.len() && (#[trigger] s[k]).0 == min_x_of(s),
        exists|k: int| 0 <= k < s.len() && (#[trigger] s[k]).1 == min_y_of(s),
    decreases s.len(),
{
    if s.len() > 1 {
        lemma_min_props(s.drop_last());
        assert forall|k: int| 0 <= k < s.len() implies min_x_of(s) <= (#[trigger] s[k]).0
            && min_y_of(s) <= s[k].1 by {
            if k < s.len() - 1 {
                assert(s.drop_last()[k] == s[k]);
            }
        }
        if s.last().0 < min_x_of(s.drop_last()) {
            assert(s[s.len() - 1].0 == min_x_of(s));
        } else {
            let kx = choose|k: int|
                0 <= k < s.drop_last().len() && (#[trigger] s.drop_last()[k]).0 == min_x_of(
                    s.drop_last(),
                );
            assert(s[kx] == s.drop_last()[kx]);
        }
        if s.last().1 < min_y_of(s.drop_last()) {
            assert(s[s.len() - 1].1 == min_y_of(s));
        } else {
            let ky = choose|k: int|
                0 <= k < s.drop_last().len() && (#[trigger] s.drop_last()[k]).1 == min_y_of(
                    s.drop_last(),
                );
            assert(s[ky] == s.drop_last()[ky]);
        }
    } else {
        assert(s[0].0 == min_x_of(s));
        assert(s[0].1 == min_y_of(s));
    }
}

/// Shift all resolved positions so that no coordinate is negative: the
/// smallest x and smallest y are subtracted from every position, making
/// both minima land exactly on zero.
pub fn normalize_positions(raw: &Vec<(i64, i64)>) -> (r: Vec<(i64, i64)>)
    requires
        raw@.len() > 0,
        forall|k: int|
            0 <= k < raw@.len() ==> -0x2000_0000_0000_0000 <= (#[trigger] raw@[k]).0
                <= 0x2000_0000_0000_0000 && -0x2000_0000_0000_0000 <= raw@[k].1
                <= 0x2000_0000_0000_0000,
    ensures
        r@.len() == raw@.len(),
        forall|k: int|
            0 <= k < r@.len() ==> (#[trigger] r@[k]).0 == raw@[k].0 - min_x_of(raw@) && r@[k].1
                == raw@[k].1 - min_y_of(raw@),
        forall|k: int| 0 <= k < r@.len() ==> (#[trigger] r@[k]).0 >= 0 && r@[k].1 >= 0,
        exists|k: int| 0 <= k < r@.len() && (#[trigger] r@[k]).0 == 0,
        exists|k: int| 0 <= k < r@.len() && (#[trigger] r@[k]).1 == 0,
{
    let n = raw.len();
    let mut min_x: i64 = raw[0].0;
    let mut min_y: i64 = raw[0].1;
    let mut i: usize = 1;
    while i < n
        invariant
            1 <= i <= n,
            n == raw@.len(),
            min_x as int == min_x_of(raw@.subrange(0, i as int)),
            min_y as int == min_y_of(raw@.subrange(0, i as int)),
        decreases n - i,
    {
        let ghost pre = raw@.subrange(0, i as int);
        if raw[i].0 < min_x {
            min_x = raw[i].0;
        }
        if raw[i].1 < min_y {
            min_y = raw[i].1;
        }
        proof {
            assert(raw@.subrange(0, i + 1).drop_last() =~= pre);
            assert(raw@.subrange(0, i + 1).last() == raw@[i as int]);
        }
        i += 1;
    }
    proof {
        assert(raw@.subrange(0, n as int) =~= raw@);
        lemma_min_props(raw@);
        let kx = choose|t: int| 0 <= t < raw@.len() && (#[trigger] raw@[t]).0 == min_x_of(raw@);
        let ky = choose|t: int| 0 <= t < raw@.len() && (#[trigger] raw@[t]).1 == min_y_of(raw@);
        assert(-0x2000_0000_0000_0000 <= min_x <= 0x2000_0000_0000_0000);
        assert(-0x2000_0000_0000_0000 <= min_y <= 0x2000_0000_0000_0000);
    }
    let mut r: Vec<(i64, i64)> = Vec::new();
    let mut k: usize = 0;
    while k < n
        invariant
            0 <= k <= n,
            n == raw@.len(),
            min_x as int == min_x_of(raw@),
            min_y as int == min_y_of(raw@),
            -0x2000_0000_0000_0000 <= min_x <= 0x2000_0000_0000_0000,
            -0x2000_0000_0000_0000 <= min_y <= 0x2000_0000_0000_0000,
            forall|t: int|
                0 <= t < raw@.len() ==> -0x2000_0000_0000_0000 <= (#[trigger] raw@[t]).0
                    <= 0x2000_0000_0000_0000 && -0x2000_0000_0000_0000 <= raw@[t].1
                    <= 0x2000_0000_0000_0000,
            forall|t: int| 0 <= t < raw@.len() ==> min_x as int <= (#[trigger] raw@[t]).0,
            forall|t: int| 0 <= t < raw@.len() ==> min_y as int <= (#[trigger] raw@[t]).1,
            r@.len() == k,
            forall|t: int|
                0 <= t < k ==> (#[trigger] r@[t]).0 == raw@[t].0 - min_x_of(raw@) && r@[t].1
                    == raw@[t].1 - min_y_of(raw@),
        decreases n - k,
    {
        r.push((raw[k].0 - min_x, raw[k].1 - min_y));
        k += 1;
    }
    proof {
        lemma_min_props(raw@);
        let kx = choose|t: int| 0 <= t < raw@.len() && (#[trigger] raw@[t]).0 == min_x_of(raw@);
        let ky = choose|t: int| 0 <= t < raw@.len() && (#[trigger] raw@[t]).1 == min_y_of(raw@);
        assert(r@[kx].0 == 0);
        assert(r@[ky].1 == 0);
    }
    r
}

} // verus!
