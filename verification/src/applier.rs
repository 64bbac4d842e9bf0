//! Turning a winning profile into an apply plan: the per-output settings,
//! the workspace moves, the input-source switches, and the post-apply
//! commands, all computed from the resolved layout.

use vstd::prelude::*;
use crate::geometry::{ScreenPositionRelative, ScreenRotation};
use crate::layout::{
    all_rooted, attach_at, build_attach, match_pos_from, match_screens, matched_slots,
    normalize_positions, offsets_of, resolve_raw, slot_pos, Attach, LayoutError,
};
use crate::output::Snapshot;
use crate::profile::{ScreensProfile, MAX_SCREENS};

verus! {

/// Settings for one output as the compositor backend needs them: identity,
/// mode, resolved position, scale and rotation, plus the workspaces bound
/// to it. Mirror placements carry the parent's identifier instead of an
/// offset of their own.
#[derive(Debug)]
pub struct SwayMonitor {
    pub mirror: Option<String>,
    pub enabled: bool,
    pub name: String,
    pub width: i32,
    pub height: i32,
    /// Refresh rate of the chosen mode, in millihertz.
    pub fps_millihz: i32,
    pub pos_x: i64,
    pub pos_y: i64,
    /// Scale factor in thousandths.
    pub scale_millis: i32,
    pub rotation: ScreenRotation,
    pub workspaces: Vec<u8>,
}

/// `parts` joined with single spaces.
pub open spec fn join_spaces(parts: Seq<Seq<char>>) -> Seq<char>
    decreases parts.len(),
{
    if parts.len() == 0 {
        Seq::empty()
    } else if parts.len() == 1 {
        parts[0]
    } else {
        join_spaces(parts.drop_last()) + seq![' '] + parts.last()
    }
}

pub open spec fn no_spaces(p: Seq<char>) -> bool {
    forall|i: int| 0 <= i < p.len() ==> (#[trigger] p[i]) != ' '
}

/// Views of a list of strings.
pub open spec fn string_views(ss: Seq<String>) -> Seq<Seq<char>> {
    ss.map_values(|t: String| t@)
}

/// Split a command line on single spaces. The result is the unique list
/// of space-free parts whose space-joined concatenation is the input;
/// consecutive spaces yield empty parts, and the empty string yields one
/// empty part.
pub fn split_spaces(s: &str) -> (r: Vec<String>)
    ensures
        r@.len() >= 1,
        join_spaces(string_views(r@)) == s@,
        forall|i: int| 0 <= i < r@.len() ==> no_spaces((#[trigger] r@[i])@),
{
    let n = s.unicode_len();
    let mut parts: Vec<String> = Vec::new();
    let mut start: usize = 0;
    let mut i: usize = 0;
    while i < n
        invariant
            0 <= start <= i <= n,
            n == s@.len(),
            forall|j: int| start <= j < i ==> (#[trigger] s@[j]) != ' ',
            forall|t: int| 0 <= t < parts@.len() ==> no_spaces((#[trigger] parts@[t])@),
            (parts@.len() == 0 && start == 0) || (parts@.len() >= 1 && join_spaces(
                string_views(parts@),
            ) + seq![' '] == s@.subrange(0, start as int)),
        decreases n - i,
    {
        if s.get_char(i) == ' ' {
            let piece = s.substring_char(start, i).to_owned();
            let ghost old_parts = parts@;
            parts.push(piece);
            proof {
                assert(string_views(parts@) =~= string_views(old_parts).push(piece@));
                assert(string_views(parts@).drop_last() =~= string_views(old_parts));
                if old_parts.len() == 0 {
                    assert(join_spaces(string_views(parts@)) == piece@);
                    assert(piece@ + seq![' '] =~= s@.subrange(0, i + 1));
                } else {
                    assert(join_spaces(string_views(parts@)) == join_spaces(
                        string_views(old_parts),
                    ) + seq![' '] + piece@);
                    assert(join_spaces(string_views(old_parts)) + seq![' '] + piece@ + seq![' ']
                        =~= s@.subrange(0, start as int) + s@.subrange(start as int, i as int)
                        + seq![s@[i as int]]);
                    assert(s@.subrange(0, start as int) + s@.subrange(start as int, i as int)
                        + seq![s@[i as int]] =~= s@.subrange(0, i + 1));
                }
            }
            start = i + 1;
        }
        i += 1;
    }
    let piece = s.substring_char(start, n).to_owned();
    let ghost old_parts = parts@;
    parts.push(piece);
    proof {
        assert(string_views(parts@) =~= string_views(old_parts).push(piece@));
        assert(string_views(parts@).drop_last() =~= string_views(old_parts));
        if old_parts.len() == 0 {
            assert(join_spaces(string_views(parts@)) == piece@);
            assert(piece@ =~= s@);
        } else {
            assert(join_spaces(string_views(parts@)) == join_spaces(string_views(old_parts))
                + seq![' '] + piece@);
            assert(join_spaces(string_views(old_parts)) + seq![' '] + piece@ =~= s@.subrange(
                0,
                start as int,
            ) + s@.subrange(start as int, n as int));
            assert(s@.subrange(0, start as int) + s@.subrange(start as int, n as int) =~= s@);
        }
    }
    parts
}

/// The settings slot `k` contributes to the plan, given its normalized
/// position: identity and mode from the matched output, the rest from the
/// profile entry.
pub open spec fn monitor_matches_slot(
    profile: ScreensProfile,
    snap: Snapshot,
    matched: Seq<usize>,
    mons: Seq<usize>,
    k: int,
    pos: (int, int),
    entry: (u64, SwayMonitor),
) -> bool {
    let conf = profile.screens@[matched[k] as int];
    let out = snap.outputs@[mons[k] as int];
    let mode = out.preffered_mode_spec();
    &&& entry.0 == out.head
    &&& (entry.1.mirror matches Some(nm) ==> conf.position matches
        ScreenPositionRelative::Mirror(pp) && nm@ == pp@)
    &&& (entry.1.mirror is None ==> !(conf.position is Mirror))
    &&& entry.1.enabled == conf.enabled
    &&& entry.1.name@ == out.name@
    &&& entry.1.width == mode.size.0
    &&& entry.1.height == mode.size.1
    &&& entry.1.fps_millihz == mode.refresh_millihz
    &&& entry.1.pos_x as int == pos.0
    &&& entry.1.pos_y as int == pos.1
    &&& entry.1.scale_millis == conf.scale_millis
    &&& entry.1.rotation == conf.rotation
    &&& entry.1.workspaces@ == conf.workspaces@
}

/// Build the per-output settings list, one entry per slot, in slot order.
fn assemble_monitors(
    profile: &ScreensProfile,
    snap: &Snapshot,
    matched: &Vec<usize>,
    mons: &Vec<usize>,
    pos: &Vec<(i64, i64)>,
) -> (r: Vec<(u64, SwayMonitor)>)
    requires
        snap.wf(),
        matched@.len() == mons@.len(),
        matched@.len() == pos@.len(),
        forall|k: int|
            0 <= k < matched@.len() ==> (#[trigger] matched@[k]) < profile.screens@.len(),
        forall|k: int| 0 <= k < mons@.len() ==> (#[trigger] mons@[k]) < snap.outputs@.len(),
    ensures
        r@.len() == matched@.len(),
        forall|k: int|
            0 <= k < r@.len() ==> monitor_matches_slot(
                *profile,
                *snap,
                matched@,
                mons@,
                k,
                (pos@[k].0 as int, pos@[k].1 as int),
                #[trigger] r@[k],
            ),
{
    let m = matched.len();
    let mut r: Vec<(u64, SwayMonitor)> = Vec::new();
    let mut k: usize = 0;
    while k < m
        invariant
            0 <= k <= m,
            m == matched@.len(),
            m == mons@.len(),
            m == pos@.len(),
            snap.wf(),
            forall|t: int|
                0 <= t < matched@.len() ==> (#[trigger] matched@[t]) < profile.screens@.len(),
            forall|t: int| 0 <= t < mons@.len() ==> (#[trigger] mons@[t]) < snap.outputs@.len(),
            r@.len() == k,
            forall|t: int|
                0 <= t < k ==> monitor_matches_slot(
                    *profile,
                    *snap,
                    matched@,
                    mons@,
                    t,
                    (pos@[t].0 as int, pos@[t].1 as int),
                    #[trigger] r@[t],
                ),
        decreases m - k,
    {
        let conf = &profile.screens[matched[k]];
        let out = &snap.outputs[mons[k]];
        proof {
            assert(out.wf());
            crate::output::lemma_preferred_index_range(out.modes@, 0);
        }
        let mode = out.preffered_mode();
        let mirror: Option<String> = match &conf.position {
            ScreenPositionRelative::Mirror(parent) => Some(parent.clone()),
            _ => None,
        };
        let mut workspaces: Vec<u8> = Vec::new();
        let wn = conf.workspaces.len();
        let mut w: usize = 0;
        while w < wn
            invariant
                0 <= w <= wn,
                wn == conf.workspaces@.len(),
                workspaces@ == conf.workspaces@.subrange(0, w as int),
            decreases wn - w,
        {
            workspaces.push(conf.workspaces[w]);
            proof {
                assert(workspaces@ =~= conf.workspaces@.subrange(0, w + 1));
            }
            w += 1;
        }
        proof {
            assert(workspaces@ =~= conf.workspaces@);
        }
        let sm = SwayMonitor {
            mirror,
            enabled: conf.enabled,
            name: out.name.clone(),
            width: mode.size().0,
            height: mode.size().1,
            fps_millihz: mode.refresh(),
            pos_x: pos[k].0,
            pos_y: pos[k].1,
            scale_millis: conf.scale_millis,
            rotation: *conf.rotation(),
            workspaces,
        };
        r.push((out.head, sm));
        k += 1;
    }
    r
}

/// Walk one monitor's workspace list: claim every workspace not yet
/// claimed, in list order, and return the claims and the grown claim set.
pub open spec fn ws_walk(
    name: Seq<char>,
    wss: Seq<u8>,
    j: int,
    claimed: Set<u8>,
) -> (Seq<(u8, Seq<char>)>, Set<u8>)
    decreases wss.len() - j,
{
    if j < 0 || j >= wss.len() {
        (Seq::empty(), claimed)
    } else if claimed.contains(wss[j]) {
        ws_walk(name, wss, j + 1, claimed)
    } else {
        let rest = ws_walk(name, wss, j + 1, claimed.insert(wss[j]));
        (seq![(wss[j], name)] + rest.0, rest.1)
    }
}

/// Walk the monitors in plan order, enabled ones only, first claim wins.
pub open spec fn plan_walk(
    mons: Seq<(u64, SwayMonitor)>,
    k: int,
    claimed: Set<u8>,
) -> (Seq<(u8, Seq<char>)>, Set<u8>)
    decreases mons.len() - k,
{
    if k < 0 || k >= mons.len() {
        (Seq::empty(), claimed)
    } else if mons[k].1.enabled {
        let ww = ws_walk(mons[k].1.name@, mons[k].1.workspaces@, 0, claimed);
        let rest = plan_walk(mons, k + 1, ww.1);
        (ww.0 + rest.0, rest.1)
    } else {
        plan_walk(mons, k + 1, claimed)
    }
}

/// The workspace moves an apply pass issues: for every enabled monitor in
/// plan order, each listed workspace goes to the first monitor that
/// claimed it; a workspace already claimed is never reassigned.
pub open spec fn workspace_moves_spec(mons: Seq<(u64, SwayMonitor)>) -> Seq<(u8, Seq<char>)> {
    plan_walk(mons, 0, Set::empty()).0
}

pub open spec fn move_views(ms: Seq<(u8, String)>) -> Seq<(u8, Seq<char>)> {
    ms.map_values(|e: (u8, String)| (e.0, e.1@))
}

/// Compute the workspace moves; no workspace appears twice.
pub fn workspace_moves(mons: &Vec<(u64, SwayMonitor)>) -> (r: Vec<(u8, String)>)
    ensures
        move_views(r@) == workspace_moves_spec(mons@),
        forall|i: int, j: int| 0 <= i < j < r@.len() ==> (#[trigger] r@[i]).0 != (
        #[trigger] r@[j]).0,
{
    let mut claimed: Vec<bool> = Vec::new();
    let mut c: usize = 0;
    while c < 256
        invariant
            0 <= c <= 256,
            claimed@.len() == c,
            forall|t: int| 0 <= t < c ==> !(#[trigger] claimed@[t]),
        decreases 256 - c,
    {
        claimed.push(false);
        c += 1;
    }
    let ghost mut cl: Set<u8> = Set::empty();
    let mut moves: Vec<(u8, String)> = Vec::new();
    let n = mons.len();
    let mut k: usize = 0;
    while k < n
        invariant
            0 <= k <= n,
            n == mons@.len(),
            claimed@.len() == 256,
            forall|w: u8| cl.contains(w) <==> claimed@[w as int],
            forall|i: int| 0 <= i < moves@.len() ==> cl.contains((#[trigger] moves@[i]).0),
            forall|i: int, j: int|
                0 <= i < j < moves@.len() ==> (#[trigger] moves@[i]).0 != (
                #[trigger] moves@[j]).0,
            workspace_moves_spec(mons@) == move_views(moves@) + plan_walk(mons@, k as int, cl).0,
        decreases n - k,
    {
        let mon = &mons[k].1;
        if mon.enabled {
            let wn = mon.workspaces.len();
            let mut j: usize = 0;
            while j < wn
                invariant
                    0 <= j <= wn,
                    0 <= k < n,
                    n == mons@.len(),
                    wn == mon.workspaces@.len(),
                    mon == &mons@[k as int].1,
                    claimed@.len() == 256,
                    forall|w: u8| cl.contains(w) <==> claimed@[w as int],
                    forall|i: int|
                        0 <= i < moves@.len() ==> cl.contains((#[trigger] moves@[i]).0),
                    forall|i: int, j2: int|
                        0 <= i < j2 < moves@.len() ==> (#[trigger] moves@[i]).0 != (
                        #[trigger] moves@[j2]).0,
                    workspace_moves_spec(mons@) == move_views(moves@) + {
                        let ww = ws_walk(mon.name@, mon.workspaces@, j as int, cl);
                        ww.0 + plan_walk(mons@, k + 1, ww.1).0
                    },
                decreases wn - j,
            {
                let ws = mon.workspaces[j];
                if !claimed[ws as usize] {
                    let ghost old_moves = moves@;
                    let ghost old_cl = cl;
                    moves.push((ws, mon.name.clone()));
                    claimed.set(ws as usize, true);
                    proof {
                        cl = cl.insert(ws);
                        assert(move_views(moves@) =~= move_views(old_moves).push(
                            (ws, mon.name@),
                        ));
                        assert(move_views(old_moves) + (seq![(ws, mon.name@)] + ws_walk(
                            mon.name@,
                            mon.workspaces@,
                            j + 1,
                            cl,
                        ).0) =~= move_views(moves@) + ws_walk(
                            mon.name@,
                            mon.workspaces@,
                            j + 1,
                            cl,
                        ).0);
                    }
                } else {
                    // this workspace is already bound to an earlier monitor
                    // of this pass: first claim wins
                }
                j += 1;
            }
        }
        k += 1;
    }
    proof {
        assert(workspace_moves_spec(mons@) =~= move_views(moves@));
    }
    moves
}

/// Input-source switches the pass requests: every slot whose entry demands
/// a specific input, paired with its matched output's name, in slot order.
pub open spec fn switches_upto(
    profile: ScreensProfile,
    snap: Snapshot,
    matched: Seq<usize>,
    mons: Seq<usize>,
    k: int,
) -> Seq<(Seq<char>, u32)>
    decreases k,
{
    if k <= 0 {
        Seq::empty()
    } else {
        let prev = switches_upto(profile, snap, matched, mons, k - 1);
        match profile.screens@[matched[k - 1] as int].display_output_code {
            crate::input::MonitorInputSourceMatcher::Any => prev,
            crate::input::MonitorInputSourceMatcher::Input(code) => prev.push(
                (snap.outputs@[mons[k - 1] as int].name@, code),
            ),
        }
    }
}

pub open spec fn switch_views(ss: Seq<(String, u32)>) -> Seq<(Seq<char>, u32)> {
    ss.map_values(|e: (String, u32)| (e.0@, e.1))
}

/// Compute the input-source switches of one pass.
fn input_switches(
    profile: &ScreensProfile,
    snap: &Snapshot,
    matched: &Vec<usize>,
    mons: &Vec<usize>,
) -> (r: Vec<(String, u32)>)
    requires
        matched@.len() == mons@.len(),
        forall|k: int|
            0 <= k < matched@.len() ==> (#[trigger] matched@[k]) < profile.screens@.len(),
        forall|k: int| 0 <= k < mons@.len() ==> (#[trigger] mons@[k]) < snap.outputs@.len(),
    ensures
        switch_views(r@) == switches_upto(*profile, *snap, matched@, mons@, matched@.len() as int),
{
    let m = matched.len();
    let mut r: Vec<(String, u32)> = Vec::new();
    let mut k: usize = 0;
    while k < m
        invariant
            0 <= k <= m,
            m == matched@.len(),
            m == mons@.len(),
            forall|t: int|
                0 <= t < matched@.len() ==> (#[trigger] matched@[t]) < profile.screens@.len(),
            forall|t: int| 0 <= t < mons@.len() ==> (#[trigger] mons@[t]) < snap.outputs@.len(),
            switch_views(r@) == switches_upto(*profile, *snap, matched@, mons@, k as int),
        decreases m - k,
    {
        let ghost old_r = r@;
        match &profile.screens[matched[k]].display_output_code {
            crate::input::MonitorInputSourceMatcher::Any => (),
            crate::input::MonitorInputSourceMatcher::Input(code) => {
                r.push((snap.outputs[mons[k]].name.clone(), *code));
                proof {
                    assert(switch_views(r@) =~= switch_views(old_r).push(
                        (snap.outputs@[mons@[k as int] as int].name@, *code),
                    ));
                }
            },
        }
        k += 1;
    }
    r
}

/// One wire-protocol request of an apply pass: enable a head with its
/// position, scale and transform, or disable it.
#[derive(Debug, Clone)]
pub enum HeadRequest {
    Enable { head: u64, pos_x: i64, pos_y: i64, scale_millis: i32, transform: u8 },
    Disable { head: u64 },
}

/// Requests for the desired settings, in order: heads absent from the
/// current snapshot are skipped, enabled entries get an enable request
/// with position, scale and transform, the rest a disable request.
pub open spec fn requests_upto(
    desired: Seq<(u64, SwayMonitor)>,
    snap: Snapshot,
    k: int,
) -> Seq<HeadRequest>
    decreases k,
{
    if k <= 0 {
        Seq::empty()
    } else {
        let prev = requests_upto(desired, snap, k - 1);
        let entry = desired[k - 1];
        if snap.contains_key(entry.0) {
            if entry.1.enabled {
                prev.push(
                    HeadRequest::Enable {
                        head: entry.0,
                        pos_x: entry.1.pos_x,
                        pos_y: entry.1.pos_y,
                        scale_millis: entry.1.scale_millis,
                        transform: entry.1.rotation.transform_id_spec(),
                    },
                )
            } else {
                prev.push(HeadRequest::Disable { head: entry.0 })
            }
        } else {
            prev
        }
    }
}

/// Translate the desired per-output settings into protocol requests
/// against what is currently attached.
pub(crate) fn plan_head_requests(
    desired: &Vec<(u64, SwayMonitor)>,
    current: &Snapshot,
) -> (r: Vec<HeadRequest>)
    ensures
        r@ == requests_upto(desired@, *current, desired@.len() as int),
{
    let n = desired.len();
    let mut r: Vec<HeadRequest> = Vec::new();
    let mut k: usize = 0;
    while k < n
        invariant
            0 <= k <= n,
            n == desired@.len(),
            r@ == requests_upto(desired@, *current, k as int),
        decreases n - k,
    {
        let (head, sm) = &desired[k];
        match current.get(*head) {
            Some(_) => {
                if sm.enabled {
                    r.push(
                        HeadRequest::Enable {
                            head: *head,
                            pos_x: sm.pos_x,
                            pos_y: sm.pos_y,
                            scale_millis: sm.scale_millis,
                            transform: sm.rotation.transform_id(),
                        },
                    );
                } else {
                    r.push(HeadRequest::Disable { head: *head });
                }
            },
            None => {
                proof {
                    assert(!current.contains_key(desired@[k as int].0));
                }
            },
        }
        k += 1;
    }
    r
}

/// Everything one apply pass hands to the outside: per-output settings,
/// workspace moves, input-source switches, and the post-apply commands as
/// whitespace-split argument vectors.
#[derive(Debug)]
pub struct ApplyPlan {
    pub monitors: Vec<(u64, SwayMonitor)>,
    pub workspace_moves: Vec<(u8, String)>,
    pub input_switches: Vec<(String, u32)>,
    pub commands: Vec<Vec<String>>,
}

/// Output indices the matched slots resolve to.
pub open spec fn mons_of(
    profile: ScreensProfile,
    snap: Snapshot,
    matched: Seq<usize>,
) -> Seq<usize> {
    Seq::new(
        matched.len(),
        |k: int|
            match_pos_from(snap.outputs@, profile.screens@[matched[k] as int].identifier@, 0)
                as usize,
    )
}

/// Attach relation of the matched slots.
pub open spec fn attach_seq(profile: ScreensProfile, matched: Seq<usize>) -> Seq<Attach> {
    Seq::new(matched.len(), |k: int| attach_at(profile.screens@, matched, k))
}

/// The plan's monitors carry exactly the resolved positions shifted by
/// one common offset, and that shift normalizes them: nothing negative,
/// both minima at zero (for a non-empty layout).
pub open spec fn monitors_shifted(
    profile: ScreensProfile,
    snap: Snapshot,
    monitors: Seq<(u64, SwayMonitor)>,
    min_x: int,
    min_y: int,
) -> bool {
    let matched = matched_slots(profile.screens@, snap);
    let mons = mons_of(profile, snap, matched);
    let att = attach_seq(profile, matched);
    let offs = offsets_of(profile.screens@, snap, matched, mons, att);
    &&& forall|k: int|
        0 <= k < matched.len() ==> monitor_matches_slot(
            profile,
            snap,
            matched,
            mons,
            k,
            (slot_pos(att, offs, k).0 - min_x, slot_pos(att, offs, k).1 - min_y),
            #[trigger] monitors[k],
        )
    &&& (matched.len() > 0 ==> {
        &&& forall|k: int|
            0 <= k < matched.len() ==> (#[trigger] slot_pos(att, offs, k)).0 - min_x >= 0
                && slot_pos(att, offs, k).1 - min_y >= 0
        &&& exists|k: int|
            0 <= k < matched.len() && (#[trigger] slot_pos(att, offs, k)).0 - min_x == 0
        &&& exists|k: int|
            0 <= k < matched.len() && (#[trigger] slot_pos(att, offs, k)).1 - min_y == 0
    })
}

/// Everything `apply` promises of its result.
pub open spec fn apply_post(
    profile: ScreensProfile,
    snap: Snapshot,
    r: Result<ApplyPlan, LayoutError>,
) -> bool {
    let matched = matched_slots(profile.screens@, snap);
    let mons = mons_of(profile, snap, matched);
    let att = attach_seq(profile, matched);
    let offs = offsets_of(profile.screens@, snap, matched, mons, att);
    match r {
        Ok(plan) => {
            &&& all_rooted(att)
            &&& plan.monitors@.len() == matched.len()
            &&& move_views(plan.workspace_moves@) == workspace_moves_spec(plan.monitors@)
            &&& forall|i: int, j: int|
                0 <= i < j < plan.workspace_moves@.len() ==> (
                #[trigger] plan.workspace_moves@[i]).0 != (
                #[trigger] plan.workspace_moves@[j]).0
            &&& switch_views(plan.input_switches@) == switches_upto(
                profile,
                snap,
                matched,
                mons,
                matched.len() as int,
            )
            &&& plan.commands@.len() == profile.scripts@.len()
            &&& forall|i: int|
                0 <= i < plan.commands@.len() ==> join_spaces(
                    string_views((#[trigger] plan.commands@[i])@),
                ) == profile.scripts@[i]@ && plan.commands@[i]@.len() >= 1
        },
        Err(e) => e == LayoutError::CyclicPlacement && !all_rooted(att),
    }
}

impl ScreensProfile {
    /// Resolve this profile against the attached outputs and produce the
    /// apply plan: matched outputs get their settings with normalized
    /// positions (no negative coordinates, both minima at zero), the
    /// workspace moves claim each workspace for its first monitor, every
    /// input-specific entry yields a switch request, and each post-apply
    /// command is split on spaces. Fails exactly when the parent
    /// references of the matched screens form a cycle.
    #[verifier::rlimit(100)]
    #[verifier::spinoff_prover]
    pub fn apply(&self, head_config: &Snapshot) -> (r: Result<ApplyPlan, LayoutError>)
        requires
            head_config.wf(),
            self.screens@.len() <= MAX_SCREENS,
        ensures
            apply_post(*self, *head_config, r),
            r matches Ok(plan) ==> exists|mx: int, my: int|
                #[trigger] monitors_shifted(*self, *head_config, plan.monitors@, mx, my),
    {
        let (matched, mons) = match_screens(self, head_config);
        proof {
            crate::layout::lemma_matched_upto_props(
                self.screens@,
                *head_config,
                self.screens@.len() as int,
            );
        }
        let att = build_attach(self, &matched);
        proof {
            assert(att@ =~= attach_seq(*self, matched@));
            assert(mons@ =~= mons_of(*self, *head_config, matched@));
        }
        let raw = match resolve_raw(self, head_config, &matched, &mons, &att) {
            Ok(raw) => raw,
            Err(e) => {
                proof {
                    assert(apply_post(*self, *head_config, Err::<ApplyPlan, LayoutError>(e)));
                }
                return Err(e);
            },
        };
        let positions = if matched.len() > 0 {
            normalize_positions(&raw)
        } else {
            raw
        };
        let monitors = assemble_monitors(self, head_config, &matched, &mons, &positions);
        let workspace_moves = workspace_moves(&monitors);
        let input_switches = input_switches(self, head_config, &matched, &mons);
        let ghost g_matched = matched_slots(self.screens@, *head_config);
        let ghost g_mons = mons_of(*self, *head_config, g_matched);
        let ghost g_att = attach_seq(*self, g_matched);
        let ghost g_offs = offsets_of(self.screens@, *head_config, g_matched, g_mons, g_att);
        let ghost mut g_minx: int = 0;
        let ghost mut g_miny: int = 0;
        proof {
            if matched@.len() > 0 {
                let min_x = crate::layout::min_x_of(raw@);
                let min_y = crate::layout::min_y_of(raw@);
                g_minx = min_x;
                g_miny = min_y;
                assert forall|k: int|
                    0 <= k < g_matched.len() implies monitor_matches_slot(
                    *self,
                    *head_config,
                    g_matched,
                    g_mons,
                    k,
                    (slot_pos(g_att, g_offs, k).0 - min_x, slot_pos(g_att, g_offs, k).1 - min_y),
                    #[trigger] monitors@[k],
                ) by {
                    assert(positions@[k].0 as int == slot_pos(g_att, g_offs, k).0 - min_x);
                    assert(positions@[k].1 as int == slot_pos(g_att, g_offs, k).1 - min_y);
                }
                assert forall|k: int|
                    0 <= k < g_matched.len() implies (#[trigger] slot_pos(g_att, g_offs, k)).0
                    - min_x >= 0 && slot_pos(g_att, g_offs, k).1 - min_y >= 0 by {
                    assert(positions@[k].0 >= 0 && positions@[k].1 >= 0);
                }
                let kx = choose|k: int|
                    0 <= k < positions@.len() && (#[trigger] positions@[k]).0 == 0;
                let ky = choose|k: int|
                    0 <= k < positions@.len() && (#[trigger] positions@[k]).1 == 0;
                assert((slot_pos(g_att, g_offs, kx)).0 - min_x == 0);
                assert((slot_pos(g_att, g_offs, ky)).1 - min_y == 0);
                assert(monitors_shifted(*self, *head_config, monitors@, min_x, min_y));
            } else {
                assert(monitors_shifted(*self, *head_config, monitors@, 0, 0));
            }
        }
        let mut commands: Vec<Vec<String>> = Vec::new();
        let sn = self.scripts.len();
        let mut i: usize = 0;
        while i < sn
            invariant
                0 <= i <= sn,
                sn == self.scripts@.len(),
                commands@.len() == i,
                forall|t: int|
                    0 <= t < i ==> join_spaces(string_views((#[trigger] commands@[t])@))
                        == self.scripts@[t]@ && commands@[t]@.len() >= 1,
            decreases sn - i,
        {
            let args = split_spaces(self.scripts[i].as_str());
            commands.push(args);
            i += 1;
        }
        let plan = ApplyPlan { monitors, workspace_moves, input_switches, commands };
        proof {
            assert(monitors_shifted(*self, *head_config, plan.monitors@, g_minx, g_miny));
            assert(apply_post(*self, *head_config, Ok::<ApplyPlan, LayoutError>(plan))) by {
                assert(plan.monitors@ == monitors@);
                assert(plan.workspace_moves@ == workspace_moves@);
                assert(plan.input_switches@ == input_switches@);
                assert(plan.commands@ == commands@);
                assert(all_rooted(g_att));
                assert(plan.monitors@.len() == g_matched.len());
                assert(move_views(plan.workspace_moves@) == workspace_moves_spec(
                    plan.monitors@,
                ));
                assert(switch_views(plan.input_switches@) == switches_upto(
                    *self,
                    *head_config,
                    g_matched,
                    g_mons,
                    g_matched.len() as int,
                ));
                assert(plan.commands@.len() == self.scripts@.len());
                assert(forall|i: int|
                    0 <= i < plan.commands@.len() ==> join_spaces(
                        string_views((#[trigger] plan.commands@[i])@),
                    ) == self.scripts@[i]@ && plan.commands@[i]@.len() >= 1);
            }
        }
        Ok(plan)
    }
}

} // verus!
