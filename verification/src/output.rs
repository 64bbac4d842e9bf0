//! Finalized records for attached outputs and the snapshot that holds them.
//!
//! A mode's refresh rate and an output's scale factor travel as scaled
//! integers (millihertz, thousandths), the same quantities the wire protocol
//! carries, so that all geometry stays in exact integer arithmetic.

use vstd::prelude::*;

verus! {

/// One supported timing configuration of an output: pixel dimensions,
/// refresh rate in millihertz, and whether the output prefers it.
#[derive(Clone, Copy, Debug)]
pub struct MonitorMode {
    /// Protocol identity of the mode object.
    pub mode: u64,
    /// Pixel dimensions (width, height).
    pub size: (i32, i32),
    /// Refresh rate in millihertz.
    pub refresh_millihz: i32,
    /// Whether the output advertises this mode as preferred.
    pub preferred: bool,
}

impl MonitorMode {
    /// A finalized mode always carries non-negative pixel dimensions.
    pub open spec fn wf(self) -> bool {
        self.size.0 >= 0 && self.size.1 >= 0
    }

    pub fn size(&self) -> (r: &(i32, i32))
        ensures
            r == self.size,
    {
        &self.size
    }

    pub fn refresh(&self) -> (r: i32)
        ensures
            r == self.refresh_millihz,
    {
        self.refresh_millihz
    }

    pub fn preferred(&self) -> (r: bool)
        ensures
            r == self.preferred,
    {
        self.preferred
    }

    pub fn mode(&self) -> (r: u64)
        ensures
            r == self.mode,
    {
        self.mode
    }
}

/// Index of the mode `preffered_mode` returns: the first mode flagged as
/// preferred, or index zero when no mode carries the flag.
pub open spec fn preferred_index_from(modes: Seq<MonitorMode>, i: int) -> int
    decreases modes.len() - i,
{
    if i < 0 || i >= modes.len() {
        0
    } else if modes[i].preferred {
        i
    } else {
        preferred_index_from(modes, i + 1)
    }
}

pub open spec fn preferred_index(modes: Seq<MonitorMode>) -> int {
    preferred_index_from(modes, 0)
}

/// The preferred index always lands inside a non-empty mode list.
pub proof fn lemma_preferred_index_range(modes: Seq<MonitorMode>, i: int)
    requires
        modes.len() > 0,
        0 <= i <= modes.len(),
    ensures
        0 <= preferred_index_from(modes, i) < modes.len(),
    decreases modes.len() - i,
{
    if i < modes.len() && !modes[i].preferred {
        lemma_preferred_index_range(modes, i + 1);
    }
}

/// A physical display currently attached: protocol identity, descriptive
/// strings, current state, and every mode it advertises.
#[derive(Debug)]
pub struct MonitorInformation {
    /// Protocol identity of the head object.
    pub head: u64,
    pub name: String,
    pub model: String,
    pub make: String,
    pub description: String,
    /// Physical size in millimetres.
    pub size: (i32, i32),
    /// Current logical position.
    pub position: (i32, i32),
    /// Current enable flag as the protocol reports it (zero means disabled).
    pub enabled: i32,
    /// Wire-protocol transform code currently in effect.
    pub transform: u8,
    /// Current scale factor in thousandths.
    pub scale_millis: i32,
    pub serial: Option<String>,
    /// Adaptive-sync state as the protocol reports it, when known.
    pub adaptive_sync: Option<u8>,
    /// Protocol identity of the currently active mode.
    pub current_mode: u64,
    /// Every mode the output advertises, in announcement order.
    pub modes: Vec<MonitorMode>,
}

impl MonitorInformation {
    /// A finalized output record holds at least one mode, and all of its
    /// modes are themselves well formed.
    pub open spec fn wf(self) -> bool {
        &&& self.modes@.len() > 0
        &&& forall|i: int| 0 <= i < self.modes@.len() ==> (#[trigger] self.modes@[i]).wf()
    }

    /// Content equality: every field agrees, with strings and the mode list
    /// compared by their views. `clone` guarantees exactly this.
    pub open spec fn eqv(self, o: MonitorInformation) -> bool {
        &&& self.head == o.head
        &&& self.name@ == o.name@
        &&& self.model@ == o.model@
        &&& self.make@ == o.make@
        &&& self.description@ == o.description@
        &&& self.size == o.size
        &&& self.position == o.position
        &&& self.enabled == o.enabled
        &&& self.transform == o.transform
        &&& self.scale_millis == o.scale_millis
        &&& match (self.serial, o.serial) {
            (Some(a), Some(b)) => a@ == b@,
            (None, None) => true,
            _ => false,
        }
        &&& self.adaptive_sync == o.adaptive_sync
        &&& self.current_mode == o.current_mode
        &&& self.modes@ == o.modes@
    }

    pub fn name(&self) -> (r: &String)
        ensures
            r == self.name,
    {
        &self.name
    }

    pub fn make(&self) -> (r: &String)
        ensures
            r == self.make,
    {
        &self.make
    }

    pub fn serial(&self) -> (r: &Option<String>)
        ensures
            r == self.serial,
    {
        &self.serial
    }

    pub fn model(&self) -> (r: &String)
        ensures
            r == self.model,
    {
        &self.model
    }

    pub fn description(&self) -> (r: &String)
        ensures
            r == self.description,
    {
        &self.description
    }

    pub fn modes(&self) -> (r: &Vec<MonitorMode>)
        ensures
            r == self.modes,
    {
        &self.modes
    }

    /// The mode `preffered_mode` must return: the first flagged one, or the
    /// first mode in announcement order when none carries the flag — a
    /// deliberate availability fallback.
    pub open spec fn preffered_mode_spec(self) -> MonitorMode {
        self.modes@[preferred_index(self.modes@)]
    }

    pub fn preffered_mode(&self) -> (r: &MonitorMode)
        requires
            self.modes@.len() > 0,
        ensures
            *r == self.preffered_mode_spec(),
            (exists|i: int|
                0 <= i < self.modes@.len() && (#[trigger] self.modes@[i]).preferred)
                ==> r.preferred,
    {
        let n = self.modes.len();
        let mut j: usize = 0;
        while j < n
            invariant
                0 <= j <= n,
                n == self.modes@.len(),
                forall|i: int| 0 <= i < j ==> !(#[trigger] self.modes@[i]).preferred,
                preferred_index(self.modes@) == preferred_index_from(self.modes@, j as int),
            decreases n - j,
        {
            if self.modes[j].preferred {
                return &self.modes[j];
            }
            j += 1;
        }
        // if no mode is preferred return the first one
        &self.modes[0]
    }

    /// The mode `biggest_mode` must return: scanning in announcement order,
    /// a mode replaces the running best when it is strictly wider, or when
    /// it ties the best's width while the best is taller.
    pub open spec fn biggest_fold(modes: Seq<MonitorMode>, i: int, best: MonitorMode) -> MonitorMode
        decreases modes.len() - i,
    {
        if i < 0 || i >= modes.len() {
            best
        } else {
            let wider = if best.size.0 < modes[i].size.0 {
                modes[i]
            } else {
                best
            };
            let next = if wider.size.0 == modes[i].size.0 && wider.size.1 > modes[i].size.1 {
                modes[i]
            } else {
                wider
            };
            Self::biggest_fold(modes, i + 1, next)
        }
    }

    pub fn biggest_mode(&self) -> (r: &MonitorMode)
        requires
            self.modes@.len() > 0,
        ensures
            *r == Self::biggest_fold(self.modes@, 0, self.modes@[0]),
            forall|i: int|
                0 <= i < self.modes@.len() ==> r.size.0 >= (#[trigger] self.modes@[i]).size.0,
    {
        let n = self.modes.len();
        let mut best: usize = 0;
        let mut j: usize = 0;
        while j < n
            invariant
                0 <= j <= n,
                0 <= best < n,
                n == self.modes@.len(),
                Self::biggest_fold(self.modes@, 0, self.modes@[0]) == Self::biggest_fold(
                    self.modes@,
                    j as int,
                    self.modes@[best as int],
                ),
                forall|i: int|
                    0 <= i < j ==> self.modes@[best as int].size.0 >= (
                    #[trigger] self.modes@[i]).size.0,
            decreases n - j,
        {
            if self.modes[best].size().0 < self.modes[j].size().0 {
                best = j;
            }
            if self.modes[best].size().0 == self.modes[j].size().0 && self.modes[best].size().1
                > self.modes[j].size().1 {
                best = j;
            }
            j += 1;
        }
        &self.modes[best]
    }
}

/// First position of the output keyed `k`, or `-1` when no output has it.
pub open spec fn index_of_key_from(outputs: Seq<MonitorInformation>, k: u64, i: int) -> int
    decreases outputs.len() - i,
{
    if i < 0 || i >= outputs.len() {
        -1
    } else if outputs[i].head == k {
        i
    } else {
        index_of_key_from(outputs, k, i + 1)
    }
}

pub open spec fn index_of_key(outputs: Seq<MonitorInformation>, k: u64) -> int {
    index_of_key_from(outputs, k, 0)
}

/// A point-in-time record of everything attached right now, keyed by the
/// heads' protocol identities. Replaced atomically, never mutated in place,
/// by the synchronizer.
#[derive(Debug)]
pub struct Snapshot {
    pub outputs: Vec<MonitorInformation>,
}

impl Snapshot {
    /// Keys are unique and every record is well formed.
    pub open spec fn wf(self) -> bool {
        &&& forall|i: int, j: int|
            0 <= i < j < self.outputs@.len() ==> (#[trigger] self.outputs@[i]).head != (
            #[trigger] self.outputs@[j]).head
        &&& forall|i: int| 0 <= i < self.outputs@.len() ==> (#[trigger] self.outputs@[i]).wf()
    }

    pub open spec fn contains_key(self, k: u64) -> bool {
        exists|i: int| 0 <= i < self.outputs@.len() && (#[trigger] self.outputs@[i]).head == k
    }

    pub open spec fn spec_get(self, k: u64) -> Option<MonitorInformation> {
        spec_get_of(self.outputs@, k)
    }

    pub fn new() -> (r: Snapshot)
        ensures
            r.outputs@.len() == 0,
            r.wf(),
    {
        Snapshot { outputs: Vec::new() }
    }

    pub fn len(&self) -> (r: usize)
        ensures
            r == self.outputs@.len(),
    {
        self.outputs.len()
    }

    pub fn get(&self, k: u64) -> (r: Option<&MonitorInformation>)
        ensures
            match r {
                Some(m) => self.spec_get(k) == Some(*m),
                None => self.spec_get(k) is None,
            },
    {
        let n = self.outputs.len();
        let mut j: usize = 0;
        while j < n
            invariant
                0 <= j <= n,
                n == self.outputs@.len(),
                forall|i: int| 0 <= i < j ==> (#[trigger] self.outputs@[i]).head != k,
                index_of_key(self.outputs@, k) == index_of_key_from(self.outputs@, k, j as int),
            decreases n - j,
        {
            if self.outputs[j].head == k {
                return Some(&self.outputs[j]);
            }
            j += 1;
        }
        None
    }

    /// Insert a finalized record, replacing any record with the same key.
    pub fn insert(&mut self, m: MonitorInformation)
        requires
            old(self).wf(),
            m.wf(),
        ensures
            final(self).wf(),
            final(self).spec_get(m.head) == Some(m),
            forall|k: u64| k != m.head ==> final(self).spec_get(k) == old(self).spec_get(k),
    {
        let n = self.outputs.len();
        let mut j: usize = 0;
        while j < n
            invariant
                0 <= j <= n,
                n == self.outputs@.len(),
                self.outputs@ == old(self).outputs@,
                old(self).wf(),
                m.wf(),
                forall|i: int| 0 <= i < j ==> (#[trigger] self.outputs@[i]).head != m.head,
            decreases n - j,
        {
            if self.outputs[j].head == m.head {
                let ghost a = self.outputs@;
                self.outputs.set(j, m);
                proof {
                    lemma_index_of_key_found(self.outputs@, m.head, j as int);
                    assert forall|k: u64| k != m.head implies self.spec_get(k) == old(
                        self,
                    ).spec_get(k) by {
                        lemma_get_after_update(a, j as int, m, k);
                    }
                }
                return ;
            }
            j += 1;
        }
        let ghost a = self.outputs@;
        self.outputs.push(m);
        proof {
            lemma_index_of_key_found(self.outputs@, m.head, n as int);
            assert forall|k: u64| k != m.head implies self.spec_get(k) == old(self).spec_get(
                k,
            ) by {
                lemma_get_after_push(a, m, k);
            }
        }
    }

    /// Remove the record with the given key, if present; the remaining
    /// records keep their order. Used for the eager unplug path.
    pub fn remove_key(&mut self, k: u64)
        requires
            old(self).wf(),
        ensures
            final(self).wf(),
            !final(self).contains_key(k),
            forall|q: u64| q != k ==> final(self).spec_get(q) == old(self).spec_get(q),
    {
        let n = self.outputs.len();
        let mut j: usize = 0;
        while j < n
            invariant
                0 <= j <= n,
                n == self.outputs@.len(),
                self.outputs@ == old(self).outputs@,
                old(self).wf(),
                forall|i: int| 0 <= i < j ==> (#[trigger] self.outputs@[i]).head != k,
            decreases n - j,
        {
            if self.outputs[j].head == k {
                let ghost a = self.outputs@;
                self.outputs.remove(j);
                proof {
                    assert forall|q: u64| q != k implies self.spec_get(q) == old(self).spec_get(
                        q,
                    ) by {
                        lemma_get_after_remove(a, j as int, q);
                    }
                    assert forall|i: int|
                        0 <= i < self.outputs@.len() implies (#[trigger] self.outputs@[i]).head
                        != k by {
                        if i >= j {
                            assert(self.outputs@[i] == a[i + 1]);
                        }
                    }
                    assert forall|i1: int, i2: int|
                        0 <= i1 < i2 < self.outputs@.len() implies (
                        #[trigger] self.outputs@[i1]).head != (
                        #[trigger] self.outputs@[i2]).head by {
                        let x1: int = if i1 < j { i1 } else { i1 + 1 };
                        let x2: int = if i2 < j { i2 } else { i2 + 1 };
                        assert(self.outputs@[i1] == a[x1]);
                        assert(self.outputs@[i2] == a[x2]);
                    }
                    assert forall|i: int|
                        0 <= i < self.outputs@.len() implies (
                        #[trigger] self.outputs@[i]).wf() by {
                        let x: int = if i < j { i } else { i + 1 };
                        assert(self.outputs@[i] == a[x]);
                    }
                }
                return ;
            }
            j += 1;
        }
    }
}

/// A well-formed snapshot only yields well-formed records, each keyed by
/// its own head identity.
pub proof fn lemma_get_props(s: Snapshot, k: u64)
    requires
        s.wf(),
    ensures
        s.spec_get(k) matches Some(m) ==> m.wf() && m.head == k,
{
    if s.contains_key(k) {
        lemma_index_of_key_props(s.outputs@, k, 0);
    }
}

/// When position `i` holds key `k` and no earlier position does, the first
/// index of `k` is `i`.
proof fn lemma_index_of_key_found(outputs: Seq<MonitorInformation>, k: u64, i: int)
    requires
        0 <= i < outputs.len(),
        outputs[i].head == k,
        forall|j: int| 0 <= j < i ==> (#[trigger] outputs[j]).head != k,
    ensures
        index_of_key(outputs, k) == i,
{
    lemma_index_of_key_step(outputs, k, 0, i);
}

proof fn lemma_index_of_key_step(outputs: Seq<MonitorInformation>, k: u64, from: int, i: int)
    requires
        0 <= from <= i < outputs.len(),
        outputs[i].head == k,
        forall|j: int| from <= j < i ==> (#[trigger] outputs[j]).head != k,
    ensures
        index_of_key_from(outputs, k, from) == i,
    decreases i - from,
{
    if from < i {
        lemma_index_of_key_step(outputs, k, from + 1, i);
    }
}

/// The first index of `k` either is `-1` with no occurrence of `k` left, or
/// points at an occurrence of `k` preceded by none.
proof fn lemma_index_of_key_props(s: Seq<MonitorInformation>, k: u64, from: int)
    requires
        0 <= from <= s.len(),
    ensures
        ({
            let r = index_of_key_from(s, k, from);
            ||| (r == -1 && forall|j: int| from <= j < s.len() ==> (#[trigger] s[j]).head != k)
            ||| (from <= r < s.len() && s[r].head == k && forall|j: int|
                from <= j < r ==> (#[trigger] s[j]).head != k)
        }),
    decreases s.len() - from,
{
    if from < s.len() && !(s[from].head == k) {
        lemma_index_of_key_props(s, k, from + 1);
    }
}

/// Replacing the entry at `j` with a record of the same key leaves every
/// other key's lookup unchanged.
proof fn lemma_get_after_update(a: Seq<MonitorInformation>, j: int, m: MonitorInformation, k: u64)
    requires
        0 <= j < a.len(),
        a[j].head == m.head,
        k != m.head,
    ensures
        spec_get_of(a.update(j, m), k) == spec_get_of(a, k),
{
    let b = a.update(j, m);
    lemma_index_same_heads(a, b, k, 0);
    lemma_index_of_key_props(a, k, 0);
    lemma_index_of_key_props(b, k, 0);
}

/// Appending a record with a fresh key leaves every other key's lookup
/// unchanged.
proof fn lemma_get_after_push(a: Seq<MonitorInformation>, m: MonitorInformation, k: u64)
    requires
        k != m.head,
    ensures
        spec_get_of(a.push(m), k) == spec_get_of(a, k),
{
    let b = a.push(m);
    lemma_index_push(a, m, k, 0);
    lemma_index_of_key_props(a, k, 0);
    lemma_index_of_key_props(b, k, 0);
}

/// Removing the entry at `j` leaves the lookup of any key that differs from
/// the removed entry's key unchanged.
proof fn lemma_get_after_remove(a: Seq<MonitorInformation>, j: int, q: u64)
    requires
        0 <= j < a.len(),
        a[j].head != q,
    ensures
        spec_get_of(a.remove(j), q) == spec_get_of(a, q),
{
    let b = a.remove(j);
    lemma_index_of_key_props(a, q, 0);
    lemma_index_of_key_props(b, q, 0);
    let r = index_of_key_from(a, q, 0);
    if r == -1 {
        assert forall|i: int| 0 <= i < b.len() implies (#[trigger] b[i]).head != q by {
            if i < j {
                assert(b[i] == a[i]);
            } else {
                assert(b[i] == a[i + 1]);
            }
        }
        if index_of_key_from(b, q, 0) != -1 {
            let rb = index_of_key_from(b, q, 0);
            assert(b[rb].head == q);
        }
    } else {
        if r < j {
            assert(b[r] == a[r]);
            assert forall|i: int| 0 <= i < r implies (#[trigger] b[i]).head != q by {
                assert(b[i] == a[i]);
            }
            lemma_index_of_key_step(b, q, 0, r);
        } else {
            assert(r != j);
            assert(b[r - 1] == a[r]);
            assert forall|i: int| 0 <= i < r - 1 implies (#[trigger] b[i]).head != q by {
                if i < j {
                    assert(b[i] == a[i]);
                } else {
                    assert(b[i] == a[i + 1]);
                }
            }
            lemma_index_of_key_step(b, q, 0, r - 1);
        }
    }
}

/// Lookup over a bare sequence of records, mirroring `Snapshot::spec_get`.
pub open spec fn spec_get_of(s: Seq<MonitorInformation>, k: u64) -> Option<MonitorInformation> {
    if exists|i: int| 0 <= i < s.len() && (#[trigger] s[i]).head == k {
        Some(s[index_of_key(s, k)])
    } else {
        None
    }
}

/// Sequences with pointwise equal keys resolve a key to the same index.
proof fn lemma_index_same_heads(a: Seq<MonitorInformation>, b: Seq<MonitorInformation>, k: u64, from: int)
    requires
        a.len() == b.len(),
        forall|i: int| 0 <= i < a.len() ==> (#[trigger] a[i]).head == b[i].head,
        0 <= from <= a.len(),
    ensures
        index_of_key_from(a, k, from) == index_of_key_from(b, k, from),
    decreases a.len() - from,
{
    if from < a.len() {
        lemma_index_same_heads(a, b, k, from + 1);
    }
}

impl Clone for MonitorInformation {
    fn clone(&self) -> (r: Self)
        ensures
            r.eqv(*self),
    {
        let mut modes: Vec<MonitorMode> = Vec::new();
        let n = self.modes.len();
        let mut i: usize = 0;
        while i < n
            invariant
                0 <= i <= n,
                n == self.modes@.len(),
                modes@ == self.modes@.subrange(0, i as int),
            decreases n - i,
        {
            modes.push(self.modes[i]);
            proof {
                assert(modes@ =~= self.modes@.subrange(0, i + 1));
            }
            i += 1;
        }
        proof {
            assert(modes@ =~= self.modes@);
        }
        MonitorInformation {
            head: self.head,
            name: self.name.clone(),
            model: self.model.clone(),
            make: self.make.clone(),
            description: self.description.clone(),
            size: self.size,
            position: self.position,
            enabled: self.enabled,
            transform: self.transform,
            scale_millis: self.scale_millis,
            serial: match &self.serial {
                Some(s) => Some(s.clone()),
                None => None,
            },
            adaptive_sync: self.adaptive_sync,
            current_mode: self.current_mode,
            modes,
        }
    }
}

impl Clone for Snapshot {
    fn clone(&self) -> (r: Self)
        ensures
            r.outputs@.len() == self.outputs@.len(),
            forall|i: int|
                0 <= i < self.outputs@.len() ==> (#[trigger] r.outputs@[i]).eqv(
                    self.outputs@[i],
                ),
    {
        let mut outputs: Vec<MonitorInformation> = Vec::new();
        let n = self.outputs.len();
        let mut i: usize = 0;
        while i < n
            invariant
                0 <= i <= n,
                n == self.outputs@.len(),
                outputs@.len() == i,
                forall|j: int|
                    0 <= j < i ==> (#[trigger] outputs@[j]).eqv(self.outputs@[j]),
            decreases n - i,
        {
            outputs.push(self.outputs[i].clone());
            i += 1;
        }
        Snapshot { outputs }
    }
}

/// Appending a record whose key is not `k` does not change where `k` first
/// occurs.
proof fn lemma_index_push(a: Seq<MonitorInformation>, m: MonitorInformation, k: u64, from: int)
    requires
        k != m.head,
        0 <= from <= a.len(),
    ensures
        index_of_key_from(a.push(m), k, from) == index_of_key_from(a, k, from),
    decreases a.len() - from,
{
    if from < a.len() {
        assert(a.push(m)[from] == a[from]);
        lemma_index_push(a, m, k, from + 1);
    } else {
        assert(a.push(m)[from] == m);
        assert(index_of_key_from(a.push(m), k, from + 1) == -1);
        assert(index_of_key_from(a, k, from) == -1);
    }
}

} // verus!
