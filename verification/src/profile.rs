//! Profiles: per-screen configuration entries, connectedness against a
//! snapshot, and the specificity weight that ranks competing profiles.

use vstd::prelude::*;
use crate::geometry::{ScreenPositionRelative, ScreenRotation};
use crate::input::{InputReadings, MonitorInputSourceMatcher};
use crate::output::{MonitorInformation, Snapshot};

verus! {

/// Largest number of screens a profile may hold; keeps every weight and
/// geometry computation inside machine integer ranges.
pub const MAX_SCREENS: usize = 0x4000_0000;

/// One output's settings within a profile: how to recognise the physical
/// output, and how to configure it.
#[derive(Clone, Debug)]
pub struct ScreenConfiguration {
    /// Matches an output by exact name, or by "make serial".
    pub identifier: String,
    /// Scale factor in thousandths.
    pub scale_millis: i32,
    pub rotation: ScreenRotation,
    pub display_output_code: MonitorInputSourceMatcher,
    /// Wallpaper path, kept verbatim for the applier.
    pub wallpaper: String,
    pub position: ScreenPositionRelative,
    /// Workspace numbers to bind to this output.
    pub workspaces: Vec<u8>,
    pub enabled: bool,
}

impl ScreenConfiguration {
    pub fn identifier(&self) -> (r: &String)
        ensures
            r == self.identifier,
    {
        &self.identifier
    }

    pub fn position(&self) -> (r: &ScreenPositionRelative)
        ensures
            r == self.position,
    {
        &self.position
    }

    pub fn rotation(&self) -> (r: &ScreenRotation)
        ensures
            r == self.rotation,
    {
        &self.rotation
    }

    pub fn display_output_code(&self) -> (r: &MonitorInputSourceMatcher)
        ensures
            r == self.display_output_code,
    {
        &self.display_output_code
    }

    pub fn enabled(&self) -> (r: &bool)
        ensures
            r == self.enabled,
    {
        &self.enabled
    }

    pub fn wallpaper(&self) -> (r: &String)
        ensures
            r == self.wallpaper,
    {
        &self.wallpaper
    }

    pub fn workspaces(&self) -> (r: &Vec<u8>)
        ensures
            r == self.workspaces,
    {
        &self.workspaces
    }

    pub fn scale_millis(&self) -> (r: i32)
        ensures
            r == self.scale_millis,
    {
        self.scale_millis
    }
}

/// The serial string an output matches under: its serial number, or the
/// empty string when it reports none.
pub open spec fn serial_view(serial: Option<String>) -> Seq<char> {
    match serial {
        Some(s) => s@,
        None => Seq::empty(),
    }
}

/// An identifier matches an output by exact name, or by the output's make
/// followed by one space and its serial (empty when absent).
pub open spec fn ident_matches(ident: Seq<char>, m: MonitorInformation) -> bool {
    ident == m.name@ || ident == m.make@ + seq![' '] + serial_view(m.serial)
}

/// Compare an identifier against one output, exactly as matching does.
pub fn ident_matches_output(ident: &String, m: &MonitorInformation) -> (r: bool)
    ensures
        r == ident_matches(ident@, *m),
{
    if *ident == m.name {
        return true;
    }
    let mut composed = m.make.clone();
    composed.append(" ");
    match &m.serial {
        Some(s) => composed.append(s.as_str()),
        None => (),
    }
    proof {
        reveal_strlit(" ");
        assert(" "@ =~= seq![' ']);
        assert(composed@ =~= m.make@ + seq![' '] + serial_view(m.serial));
    }
    *ident == composed
}

/// One screen entry is found in the snapshot when some output matches its
/// identifier and, if a live input reading exists for that output, the
/// entry's matcher accepts the reading; a missing reading is optimistic
/// and accepts.
pub open spec fn screen_found(
    screen: ScreenConfiguration,
    snap: Snapshot,
    inputs: InputReadings,
) -> bool {
    exists|i: int|
        0 <= i < snap.outputs@.len() && screen_found_at(screen, snap, inputs, i)
}

pub open spec fn screen_found_at(
    screen: ScreenConfiguration,
    snap: Snapshot,
    inputs: InputReadings,
    i: int,
) -> bool {
    &&& 0 <= i < snap.outputs@.len()
    &&& ident_matches(screen.identifier@, snap.outputs@[i])
    &&& match inputs.spec_get(snap.outputs@[i].name@) {
        Some(src) => screen.display_output_code.matches_spec(src),
        None => true,
    }
}

/// Count of entries whose matcher is input-specific.
pub open spec fn count_specific(screens: Seq<ScreenConfiguration>) -> int
    decreases screens.len(),
{
    if screens.len() == 0 {
        0
    } else {
        count_specific(screens.drop_last()) + if screens.last().display_output_code.is_specific_spec() {
            1int
        } else {
            0int
        }
    }
}

/// A named full-desktop layout: screen entries plus post-apply commands.
#[derive(Clone, Debug)]
pub struct ScreensProfile {
    pub screens: Vec<ScreenConfiguration>,
    pub scripts: Vec<String>,
}

impl ScreensProfile {
    pub fn screens(&self) -> (r: &Vec<ScreenConfiguration>)
        ensures
            r == self.screens,
    {
        &self.screens
    }

    pub fn scripts(&self) -> (r: &Vec<String>)
        ensures
            r == self.scripts,
    {
        &self.scripts
    }

    /// A profile is connected when every one of its entries is found.
    pub open spec fn connected_spec(self, snap: Snapshot, inputs: InputReadings) -> bool {
        forall|s: int|
            0 <= s < self.screens@.len() ==> screen_found(
                #[trigger] self.screens@[s],
                snap,
                inputs,
            )
    }

    /// Check if a profile matches the screens currently attached: every
    /// entry must find an output, with live input readings honoured.
    pub fn is_connected(
        &self,
        head_config: &Snapshot,
        current_monitor_inputs: &InputReadings,
    ) -> (r: bool)
        ensures
            r == self.connected_spec(*head_config, *current_monitor_inputs),
    {
        let sn = self.screens.len();
        let mut s: usize = 0;
        while s < sn
            invariant
                0 <= s <= sn,
                sn == self.screens@.len(),
                forall|t: int|
                    0 <= t < s ==> screen_found(
                        #[trigger] self.screens@[t],
                        *head_config,
                        *current_monitor_inputs,
                    ),
            decreases sn - s,
        {
            if !screen_is_found(&self.screens[s], head_config, current_monitor_inputs) {
                return false;
            }
            s += 1;
        }
        true
    }

    /// Specificity score of a profile: one point per screen entry, and one
    /// more for every entry that demands a specific input source. Among
    /// connected profiles, the highest weight wins.
    pub open spec fn weight_spec(self) -> int {
        self.screens@.len() + count_specific(self.screens@)
    }

    /// Calculate the profile weight: the number of entries plus the number
    /// of input-specific entries, so a profile with N entries of which K
    /// are input-specific always scores N + K.
    pub fn weight(&self) -> (r: usize)
        requires
            self.screens@.len() < MAX_SCREENS,
        ensures
            r as int == self.weight_spec(),
            r as int == self.screens@.len() + count_specific(self.screens@),
    {
        let n = self.screens.len();
        let mut w: usize = n;
        let mut s: usize = 0;
        while s < n
            invariant
                0 <= s <= n,
                n == self.screens@.len(),
                n < MAX_SCREENS,
                w == n + count_specific(self.screens@.subrange(0, s as int)),
                w <= n + s,
            decreases n - s,
        {
            let ghost pre = self.screens@.subrange(0, s as int);
            if self.screens[s].display_output_code.is_specific() {
                w += 1;
            }
            proof {
                assert(self.screens@.subrange(0, s + 1).drop_last() =~= pre);
                assert(self.screens@.subrange(0, s + 1).last() == self.screens@[s as int]);
            }
            s += 1;
        }
        proof {
            assert(self.screens@.subrange(0, n as int) =~= self.screens@);
        }
        w
    }
}

/// Scan the snapshot for one entry, exactly as `is_connected` requires:
/// an identifier match, accepted by the entry's matcher whenever a live
/// reading exists for that output.
fn screen_is_found(
    screen: &ScreenConfiguration,
    head_config: &Snapshot,
    current_monitor_inputs: &InputReadings,
) -> (r: bool)
    ensures
        r == screen_found(*screen, *head_config, *current_monitor_inputs),
{
    let on = head_config.outputs.len();
    let mut o: usize = 0;
    while o < on
        invariant
            0 <= o <= on,
            on == head_config.outputs@.len(),
            forall|i: int|
                0 <= i < o ==> !screen_found_at(
                    *screen,
                    *head_config,
                    *current_monitor_inputs,
                    i,
                ),
        decreases on - o,
    {
        let m = &head_config.outputs[o];
        if ident_matches_output(&screen.identifier, m) {
            match current_monitor_inputs.get(&m.name) {
                Some(source) => {
                    // a live reading for this monitor: the entry is found
                    // only if its matcher accepts the reading
                    if screen.display_output_code.matches(source) {
                        proof {
                            assert(screen_found_at(
                                *screen,
                                *head_config,
                                *current_monitor_inputs,
                                o as int,
                            ));
                        }
                        return true;
                    }
                },
                None => {
                    // no reading: assume the monitor is configured to
                    // display this device
                    proof {
                        assert(screen_found_at(
                            *screen,
                            *head_config,
                            *current_monitor_inputs,
                            o as int,
                        ));
                    }
                    return true;
                },
            }
        }
        o += 1;
    }
    false
}

/// Two screen lists whose matchers are specific at the same positions
/// have the same specific count.
proof fn lemma_count_specific_same_flags(
    a: Seq<ScreenConfiguration>,
    b: Seq<ScreenConfiguration>,
)
    requires
        a.len() == b.len(),
        forall|t: int|
            0 <= t < a.len() ==> (#[trigger] a[t]).display_output_code.is_specific_spec()
                == b[t].display_output_code.is_specific_spec(),
    ensures
        count_specific(a) == count_specific(b),
    decreases a.len(),
{
    if a.len() > 0 {
        assert forall|t: int|
            0 <= t < a.drop_last().len() implies (
        #[trigger] a.drop_last()[t]).display_output_code.is_specific_spec()
            == b.drop_last()[t].display_output_code.is_specific_spec() by {
            assert(a.drop_last()[t] == a[t]);
            assert(b.drop_last()[t] == b[t]);
        }
        lemma_count_specific_same_flags(a.drop_last(), b.drop_last());
        assert(a.last() == a[a.len() - 1]);
        assert(b.last() == b[a.len() - 1]);
    }
}

/// Weight is strictly increasing in the number of input-specific entries:
/// with the entry count fixed, turning one entry's matcher from `Any`
/// into a specific input raises the weight by exactly one.
pub proof fn lemma_weight_specific_raises(p: ScreensProfile, q: ScreensProfile, s: int)
    requires
        p.screens@.len() == q.screens@.len(),
        0 <= s < p.screens@.len(),
        !p.screens@[s].display_output_code.is_specific_spec(),
        q.screens@[s].display_output_code.is_specific_spec(),
        forall|t: int|
            0 <= t < p.screens@.len() && t != s ==> (
            #[trigger] p.screens@[t]).display_output_code.is_specific_spec()
                == q.screens@[t].display_output_code.is_specific_spec(),
    ensures
        q.weight_spec() == p.weight_spec() + 1,
{
    lemma_count_specific_flag_flip(p.screens@, q.screens@, s);
}

proof fn lemma_count_specific_flag_flip(
    a: Seq<ScreenConfiguration>,
    b: Seq<ScreenConfiguration>,
    s: int,
)
    requires
        a.len() == b.len(),
        0 <= s < a.len(),
        !a[s].display_output_code.is_specific_spec(),
        b[s].display_output_code.is_specific_spec(),
        forall|t: int|
            0 <= t < a.len() && t != s ==> (
            #[trigger] a[t]).display_output_code.is_specific_spec()
                == b[t].display_output_code.is_specific_spec(),
    ensures
        count_specific(b) == count_specific(a) + 1,
    decreases a.len(),
{
    if s == a.len() - 1 {
        assert forall|t: int|
            0 <= t < a.drop_last().len() implies (
        #[trigger] a.drop_last()[t]).display_output_code.is_specific_spec()
            == b.drop_last()[t].display_output_code.is_specific_spec() by {
            assert(a.drop_last()[t] == a[t]);
            assert(b.drop_last()[t] == b[t]);
        }
        lemma_count_specific_same_flags(a.drop_last(), b.drop_last());
        assert(a.last() == a[s]);
        assert(b.last() == b[s]);
    } else {
        assert forall|t: int|
            0 <= t < a.drop_last().len() && t != s implies (
        #[trigger] a.drop_last()[t]).display_output_code.is_specific_spec()
            == b.drop_last()[t].display_output_code.is_specific_spec() by {
            assert(a.drop_last()[t] == a[t]);
            assert(b.drop_last()[t] == b[t]);
        }
        assert(a.drop_last()[s] == a[s]);
        assert(b.drop_last()[s] == b[s]);
        lemma_count_specific_flag_flip(a.drop_last(), b.drop_last(), s);
        assert(a.last() == a[a.len() - 1]);
        assert(b.last() == b[a.len() - 1]);
    }
}

/// Weight is strictly increasing in the number of entries: adding any
/// entry raises the weight, by two when the new entry is input-specific
/// and by one otherwise.
pub proof fn lemma_weight_strictly_monotonic(p: ScreensProfile, q: ScreensProfile, c: ScreenConfiguration)
    requires
        q.screens@ == p.screens@.push(c),
    ensures
        q.weight_spec() > p.weight_spec(),
        c.display_output_code.is_specific_spec() ==> q.weight_spec() == p.weight_spec() + 2,
        !c.display_output_code.is_specific_spec() ==> q.weight_spec() == p.weight_spec() + 1,
{
    assert(q.screens@.drop_last() =~= p.screens@);
    assert(count_specific(q.screens@) == count_specific(p.screens@) + if c.display_output_code.is_specific_spec() {
        1int
    } else {
        0int
    });
}

} // verus!
