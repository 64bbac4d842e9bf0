//! Control-loop state: the authoritative snapshot, the profile catalog,
//! and the selection of the best-matching profile on every update.

use vstd::prelude::*;
use vstd::seq_lib::group_to_multiset_ensures;
use crate::applier::{apply_post, ApplyPlan};
use crate::catalog::{name_index_from, AppConfiguration};
use crate::input::InputReadings;
use crate::layout::LayoutError;
use crate::ordering::sorted_by_second;
use crate::output::Snapshot;
use crate::profile::MAX_SCREENS;

verus! {

/// No profile of the catalog is connected under this snapshot.
pub open spec fn none_connected(
    config: AppConfiguration,
    snap: Snapshot,
    inputs: InputReadings,
) -> bool {
    forall|i: int|
        0 <= i < config.profiles@.len() ==> !(#[trigger] config.profiles@[i]).1.connected_spec(
            snap,
            inputs,
        )
}

/// Catalog position `i` wins the selection: its profile is connected, no
/// connected profile outweighs it, and among equal weights the last
/// catalog position wins — the deterministic tie-break for a fixed
/// catalog order.
pub open spec fn is_selected(
    config: AppConfiguration,
    snap: Snapshot,
    inputs: InputReadings,
    i: int,
) -> bool {
    &&& 0 <= i < config.profiles@.len()
    &&& config.profiles@[i].1.connected_spec(snap, inputs)
    &&& forall|j: int|
        0 <= j < config.profiles@.len() && (#[trigger] config.profiles@[j]).1.connected_spec(
            snap,
            inputs,
        ) ==> config.profiles@[j].1.weight_spec() <= config.profiles@[i].1.weight_spec()
    &&& forall|j: int|
        0 <= j < config.profiles@.len() && (#[trigger] config.profiles@[j]).1.connected_spec(
            snap,
            inputs,
        ) && config.profiles@[j].1.weight_spec() == config.profiles@[i].1.weight_spec() ==> j
            <= i
}

/// For a fixed catalog order the selection is deterministic: at most one
/// catalog position can win under a given snapshot and set of readings.
pub proof fn lemma_selection_unique(
    config: AppConfiguration,
    snap: Snapshot,
    inputs: InputReadings,
    i: int,
    j: int,
)
    requires
        is_selected(config, snap, inputs, i),
        is_selected(config, snap, inputs, j),
    ensures
        i == j,
{
}

/// Some candidate pair records catalog position `i`.
pub open spec fn cand_has(c: Seq<(usize, usize)>, i: int) -> bool {
    exists|t: int| 0 <= t < c.len() && (#[trigger] c[t]).0 == i
}

/// Rank the connected profiles by weight and pick the winner: the
/// highest-weighted connected profile, ties resolved to the latest
/// catalog position.
pub fn select_profile(
    config: &AppConfiguration,
    snap: &Snapshot,
    inputs: &InputReadings,
) -> (r: Option<usize>)
    requires
        forall|i: int|
            0 <= i < config.profiles@.len() ==> (#[trigger] config.profiles@[i]).1.screens@.len()
                < MAX_SCREENS,
    ensures
        match r {
            Some(i) => is_selected(*config, *snap, *inputs, i as int),
            None => none_connected(*config, *snap, *inputs),
        },
{
    broadcast use group_to_multiset_ensures;

    let n = config.profiles.len();
    let mut cand: Vec<(usize, usize)> = Vec::new();
    let mut i: usize = 0;
    while i < n
        invariant
            0 <= i <= n,
            n == config.profiles@.len(),
            forall|t: int|
                0 <= t < config.profiles@.len() ==> (
                #[trigger] config.profiles@[t]).1.screens@.len() < MAX_SCREENS,
            forall|t1: int, t2: int| 0 <= t1 < t2 < cand@.len() ==> cand@[t1].0 < cand@[t2].0,
            forall|t: int|
                0 <= t < cand@.len() ==> {
                    let p = (#[trigger] cand@[t]).0 as int;
                    &&& p < i
                    &&& config.profiles@[p].1.connected_spec(*snap, *inputs)
                    &&& cand@[t].1 as int == config.profiles@[p].1.weight_spec()
                },
            forall|p: int|
                0 <= p < i && (#[trigger] config.profiles@[p]).1.connected_spec(*snap, *inputs)
                    ==> cand_has(cand@, p),
        decreases n - i,
    {
        let entry = &config.profiles[i];
        if entry.1.is_connected(snap, inputs) {
            let w = entry.1.weight();
            let ghost old_cand = cand@;
            cand.push((i, w));
            proof {
                assert forall|p: int|
                    0 <= p < i + 1 && (#[trigger] config.profiles@[p]).1.connected_spec(
                        *snap,
                        *inputs,
                    ) implies cand_has(cand@, p) by {
                    if p == i as int {
                        assert(cand@[cand@.len() - 1].0 == i);
                    } else if cand_has(old_cand, p) {
                        let t = choose|t: int| 0 <= t < old_cand.len() && old_cand[t].0 == p;
                        assert(cand@[t].0 == p);
                    }
                }
            }
        }
        i += 1;
    }
    if cand.len() == 0 {
        return None;
    }
    let ghost cv = cand@;
    let sorted = sorted_by_second(cand);
    let last = sorted[sorted.len() - 1];
    proof {
        let lastpos = sorted@.len() - 1;
        assert(sorted@[lastpos] == last);
        assert(sorted@.contains(last));
        assert(sorted@.to_multiset().count(last) > 0);
        assert(cv.to_multiset().count(last) > 0);
        assert(cv.contains(last));
        let t0 = choose|t: int| 0 <= t < cv.len() && cv[t] == last;
        assert(cv[t0].0 == last.0);
        assert forall|j: int|
            0 <= j < config.profiles@.len() && (#[trigger] config.profiles@[j]).1.connected_spec(
                *snap,
                *inputs,
            ) implies config.profiles@[j].1.weight_spec()
            <= config.profiles@[last.0 as int].1.weight_spec() && (
        config.profiles@[j].1.weight_spec() == config.profiles@[last.0 as int].1.weight_spec()
            ==> j <= last.0 as int) by {
            assert(cand_has(cv, j));
            let t = choose|t: int| 0 <= t < cv.len() && cv[t].0 == j;
            assert(cv.contains(cv[t]));
            assert(cv.to_multiset().count(cv[t]) > 0);
            assert(sorted@.to_multiset().count(cv[t]) > 0);
            assert(sorted@.contains(cv[t]));
            let q = choose|q: int| 0 <= q < sorted@.len() && sorted@[q] == cv[t];
            if q < lastpos {
                assert(sorted@[q].1 <= sorted@[lastpos].1);
                if sorted@[q].1 == sorted@[lastpos].1 {
                    assert(sorted@[q].0 < sorted@[lastpos].0);
                }
            }
        }
    }
    Some(last.0)
}

/// Process-lifetime daemon state: what hardware is attached, the loaded
/// catalog, and which profile is active.
#[derive(Debug)]
pub struct DaemonState {
    pub head_state: Snapshot,
    pub config: AppConfiguration,
    pub current_profile: Option<String>,
}

impl Default for DaemonState {
    /// Before anything arrives: no outputs, an empty catalog, no active
    /// profile.
    fn default() -> (r: Self)
        ensures
            r.head_state.outputs@.len() == 0,
            r.head_state.wf(),
            r.config.profiles@.len() == 0,
            r.current_profile is None,
    {
        DaemonState {
            head_state: Snapshot::new(),
            config: AppConfiguration::default(),
            current_profile: None,
        }
    }
}

impl DaemonState {
    /// One control-loop step on a freshly published snapshot: select the
    /// best-matching profile, record it as active when one exists (the
    /// active profile is left untouched when none is connected), and
    /// replace the stored snapshot. The caller applies the winner.
    pub fn observe_snapshot(
        &mut self,
        snapshot: Snapshot,
        inputs: &InputReadings,
    ) -> (winner: Option<usize>)
        requires
            forall|i: int|
                0 <= i < old(self).config.profiles@.len() ==> (#[trigger] old(
                    self,
                ).config.profiles@[i]).1.screens@.len() < MAX_SCREENS,
        ensures
            final(self).config == old(self).config,
            final(self).head_state == snapshot,
            match winner {
                Some(i) => {
                    &&& is_selected(old(self).config, snapshot, *inputs, i as int)
                    &&& final(self).current_profile matches Some(n) && n@ == old(
                        self,
                    ).config.profiles@[i as int].0@
                },
                None => {
                    &&& none_connected(old(self).config, snapshot, *inputs)
                    &&& final(self).current_profile == old(self).current_profile
                },
            },
    {
        let winner = select_profile(&self.config, &snapshot, inputs);
        match winner {
            Some(i) => {
                self.current_profile = Some(self.config.profiles[i].0.clone());
            },
            None => {},
        }
        self.head_state = snapshot;
        winner
    }

    /// Switch to the named profile: compute its apply plan against the
    /// stored snapshot and record it as active when the plan resolves.
    /// Returns nothing when no profile carries the name.
    pub fn apply_profile_named(&mut self, name: &String) -> (r: Option<
        Result<ApplyPlan, LayoutError>,
    >)
        requires
            old(self).head_state.wf(),
            forall|i: int|
                0 <= i < old(self).config.profiles@.len() ==> (#[trigger] old(
                    self,
                ).config.profiles@[i]).1.screens@.len() < MAX_SCREENS,
        ensures
            final(self).config == old(self).config,
            final(self).head_state == old(self).head_state,
            match r {
                None => {
                    &&& forall|i: int|
                        0 <= i < old(self).config.profiles@.len() ==> (#[trigger] old(
                            self,
                        ).config.profiles@[i]).0@ != name@
                    &&& final(self).current_profile == old(self).current_profile
                },
                Some(res) => {
                    let i = name_index_from(old(self).config.profiles@, name@, 0);
                    &&& 0 <= i < old(self).config.profiles@.len()
                    &&& apply_post(
                        old(self).config.profiles@[i].1,
                        old(self).head_state,
                        res,
                    )
                    &&& (res is Ok ==> (final(self).current_profile matches Some(n) && n@
                        == name@))
                    &&& (res is Err ==> final(self).current_profile == old(
                        self,
                    ).current_profile)
                },
            },
    {
        let plan = match self.config.profile_by_name(name) {
            Some(profile) => profile.apply(&self.head_state),
            None => {
                return None;
            },
        };
        if plan.is_ok() {
            self.current_profile = Some(name.clone());
        }
        Some(plan)
    }
}

} // verus!
