//! Protocol state synchronizer: turns the interleaved stream of
//! object-lifecycle and property-update events into finished output
//! records and a coherent snapshot.
//!
//! Every handler's contract is a transition function over a mathematical
//! model of the state: drafts with their pending fields, and the snapshot
//! as a map from head identity to a finished record.

use vstd::prelude::*;
use crate::output::{MonitorInformation, MonitorMode, Snapshot};

verus! {

/// In-progress mode record; all fields plain, identity fixed at creation.
#[derive(Clone, Copy, Debug)]
pub struct MonitorModeBuilder {
    pub mode: u64,
    pub size: Option<(i32, i32)>,
    pub refresh: Option<i32>,
    pub preferred: bool,
}

impl MonitorModeBuilder {
    pub fn new(mode: u64) -> (r: MonitorModeBuilder)
        ensures
            r == (MonitorModeBuilder { mode, size: None, refresh: None, preferred: false }),
    {
        MonitorModeBuilder { mode, size: None, refresh: None, preferred: false }
    }

    /// What finalizing this draft yields: a mode once its size and refresh
    /// rate have both arrived and the dimensions are sane, else nothing.
    pub open spec fn build_spec(self) -> Option<MonitorMode> {
        match (self.size, self.refresh) {
            (Some(size), Some(refresh)) => if size.0 >= 0 && size.1 >= 0 {
                Some(
                    MonitorMode {
                        mode: self.mode,
                        size,
                        refresh_millihz: refresh,
                        preferred: self.preferred,
                    },
                )
            } else {
                None
            },
            _ => None,
        }
    }

    /// Finalize the draft; fails on a draft that never received its size
    /// or refresh rate, or whose dimensions are negative.
    pub fn build(&self) -> (r: Option<MonitorMode>)
        ensures
            r == self.build_spec(),
            r matches Some(m) ==> m.wf(),
    {
        match (self.size, self.refresh) {
            (Some(size), Some(refresh)) => {
                if size.0 >= 0 && size.1 >= 0 {
                    Some(
                        MonitorMode {
                            mode: self.mode,
                            size,
                            refresh_millihz: refresh,
                            preferred: self.preferred,
                        },
                    )
                } else {
                    None
                }
            },
            _ => None,
        }
    }
}

/// Model of an in-progress output record: which fields have arrived.
pub struct HeadDraftModel {
    pub head: u64,
    pub name: Option<Seq<char>>,
    pub model: Option<Seq<char>>,
    pub make: Option<Seq<char>>,
    pub description: Option<Seq<char>>,
    pub size: Option<(i32, i32)>,
    pub position: Option<(i32, i32)>,
    pub enabled: Option<i32>,
    pub transform: Option<u8>,
    pub scale_millis: Option<i32>,
    pub serial: Option<Seq<char>>,
    pub adaptive_sync: Option<u8>,
    pub current_mode: Option<u64>,
    pub modes: Seq<MonitorMode>,
}

/// Model of a finished output record.
pub struct MonitorInformationModel {
    pub head: u64,
    pub name: Seq<char>,
    pub model: Seq<char>,
    pub make: Seq<char>,
    pub description: Seq<char>,
    pub size: (i32, i32),
    pub position: (i32, i32),
    pub enabled: i32,
    pub transform: u8,
    pub scale_millis: i32,
    pub serial: Option<Seq<char>>,
    pub adaptive_sync: Option<u8>,
    pub current_mode: u64,
    pub modes: Seq<MonitorMode>,
}

pub open spec fn opt_str_view(o: Option<String>) -> Option<Seq<char>> {
    match o {
        Some(s) => Some(s@),
        None => None,
    }
}

pub open spec fn or_empty(o: Option<Seq<char>>) -> Seq<char> {
    match o {
        Some(s) => s,
        None => Seq::empty(),
    }
}

impl View for MonitorInformation {
    type V = MonitorInformationModel;

    open spec fn view(&self) -> MonitorInformationModel {
        MonitorInformationModel {
            head: self.head,
            name: self.name@,
            model: self.model@,
            make: self.make@,
            description: self.description@,
            size: self.size,
            position: self.position,
            enabled: self.enabled,
            transform: self.transform,
            scale_millis: self.scale_millis,
            serial: opt_str_view(self.serial),
            adaptive_sync: self.adaptive_sync,
            current_mode: self.current_mode,
            modes: self.modes@,
        }
    }
}

impl View for Snapshot {
    type V = Map<u64, MonitorInformationModel>;

    /// The snapshot as a map from head identity to finished record.
    open spec fn view(&self) -> Map<u64, MonitorInformationModel> {
        Map::new(
            |k: u64| self.contains_key(k),
            |k: u64|
                match self.spec_get(k) {
                    Some(m) => m@,
                    None => arbitrary(),
                },
        )
    }
}

/// In-progress output record, seeded from the previous finished record
/// when the same head is re-announced.
#[derive(Debug)]
pub struct MonitorInformationBuilder {
    pub head: u64,
    pub name: Option<String>,
    pub model: Option<String>,
    pub make: Option<String>,
    pub description: Option<String>,
    pub size: Option<(i32, i32)>,
    pub position: Option<(i32, i32)>,
    pub enabled: Option<i32>,
    pub transform: Option<u8>,
    pub scale_millis: Option<i32>,
    pub serial: Option<String>,
    pub adaptive_sync: Option<u8>,
    pub current_mode: Option<u64>,
    pub modes: Vec<MonitorMode>,
}

impl View for MonitorInformationBuilder {
    type V = HeadDraftModel;

    open spec fn view(&self) -> HeadDraftModel {
        HeadDraftModel {
            head: self.head,
            name: opt_str_view(self.name),
            model: opt_str_view(self.model),
            make: opt_str_view(self.make),
            description: opt_str_view(self.description),
            size: self.size,
            position: self.position,
            enabled: self.enabled,
            transform: self.transform,
            scale_millis: self.scale_millis,
            serial: opt_str_view(self.serial),
            adaptive_sync: self.adaptive_sync,
            current_mode: self.current_mode,
            modes: self.modes@,
        }
    }
}

impl MonitorInformationBuilder {
    /// Every recorded mode is well formed.
    pub open spec fn modes_wf(self) -> bool {
        forall|i: int| 0 <= i < self.modes@.len() ==> (#[trigger] self.modes@[i]).wf()
    }

    /// A fresh draft for a newly announced head: nothing known yet.
    pub fn new(head: u64) -> (r: MonitorInformationBuilder)
        ensures
            r@ == fresh_draft(head),
            r.modes_wf(),
    {
        let r = MonitorInformationBuilder {
            head,
            name: None,
            model: None,
            make: None,
            description: None,
            size: None,
            position: None,
            enabled: None,
            transform: None,
            scale_millis: None,
            serial: None,
            adaptive_sync: None,
            current_mode: None,
            modes: Vec::new(),
        };
        proof {
            assert(r@.modes =~= fresh_draft(head).modes);
            assert(r@ == fresh_draft(head));
        }
        r
    }

    /// Seed a draft from a previously finished record, so that rapid
    /// re-announcements do not lose already-known fields.
    pub fn from_value(monitor_information: &MonitorInformation) -> (r: MonitorInformationBuilder)
        requires
            monitor_information.wf(),
        ensures
            r@ == draft_of_record(monitor_information@),
            r.modes_wf(),
    {
        let mut modes: Vec<MonitorMode> = Vec::new();
        let n = monitor_information.modes.len();
        let mut i: usize = 0;
        while i < n
            invariant
                0 <= i <= n,
                n == monitor_information.modes@.len(),
                modes@ == monitor_information.modes@.subrange(0, i as int),
            decreases n - i,
        {
            modes.push(monitor_information.modes[i]);
            proof {
                assert(modes@ =~= monitor_information.modes@.subrange(0, i + 1));
            }
            i += 1;
        }
        proof {
            assert(modes@ =~= monitor_information.modes@);
        }
        MonitorInformationBuilder {
            head: monitor_information.head,
            name: Some(monitor_information.name.clone()),
            model: Some(monitor_information.model.clone()),
            make: Some(monitor_information.make.clone()),
            description: Some(monitor_information.description.clone()),
            size: Some(monitor_information.size),
            position: Some(monitor_information.position),
            enabled: Some(monitor_information.enabled),
            transform: Some(monitor_information.transform),
            scale_millis: Some(monitor_information.scale_millis),
            serial: match &monitor_information.serial {
                Some(s) => Some(s.clone()),
                None => None,
            },
            adaptive_sync: monitor_information.adaptive_sync,
            current_mode: Some(monitor_information.current_mode),
            modes,
        }
    }

    /// Record one more finalized mode; modes never span output boundaries.
    pub fn add_mode(&mut self, mode: MonitorMode)
        requires
            mode.wf(),
        ensures
            final(self)@ == (HeadDraftModel { modes: old(self)@.modes.push(mode), ..old(self)@ }),
            old(self).modes_wf() ==> final(self).modes_wf(),
    {
        self.modes.push(mode);
    }

    /// Finalize the draft. Identity, enable flag, transform and the
    /// current-mode reference must all have arrived, and at least one mode
    /// must have been recorded; anything less is a builder failure.
    pub fn build(&self) -> (r: Option<MonitorInformation>)
        requires
            self.modes_wf(),
        ensures
            r is Some <==> head_buildable(self@),
            r matches Some(m) ==> m@ == head_built(self@) && m.wf(),
    {
        if self.enabled.is_none() || self.transform.is_none() || self.current_mode.is_none()
            || self.modes.len() == 0 {
            return None;
        }
        let mut modes: Vec<MonitorMode> = Vec::new();
        let n = self.modes.len();
        let mut i: usize = 0;
        while i < n
            invariant
                0 <= i <= n,
                n == self.modes@.len(),
                modes@ == self.modes@.subrange(0, i as int),
            decreases n - i,
        {
            modes.push(self.modes[i]);
            proof {
                assert(modes@ =~= self.modes@.subrange(0, i + 1));
            }
            i += 1;
        }
        proof {
            assert(modes@ =~= self.modes@);
        }
        let m = MonitorInformation {
            head: self.head,
            name: clone_or_empty(&self.name),
            model: clone_or_empty(&self.model),
            make: clone_or_empty(&self.make),
            description: clone_or_empty(&self.description),
            size: match self.size {
                Some(v) => v,
                None => (0, 0),
            },
            position: match self.position {
                Some(v) => v,
                None => (0, 0),
            },
            enabled: match self.enabled {
                Some(v) => v,
                None => 0,
            },
            transform: match self.transform {
                Some(v) => v,
                None => 0,
            },
            scale_millis: match self.scale_millis {
                Some(v) => v,
                None => 0,
            },
            serial: match &self.serial {
                Some(s) => Some(s.clone()),
                None => None,
            },
            adaptive_sync: self.adaptive_sync,
            current_mode: match self.current_mode {
                Some(v) => v,
                None => 0,
            },
            modes,
        };
        Some(m)
    }
}

/// A string that arrived, or the empty default.
fn clone_or_empty(o: &Option<String>) -> (r: String)
    ensures
        r@ == or_empty(opt_str_view(*o)),
{
    match o {
        Some(s) => s.clone(),
        None => String::new(),
    }
}

/// A draft with nothing but its identity.
pub open spec fn fresh_draft(head: u64) -> HeadDraftModel {
    HeadDraftModel {
        head,
        name: None,
        model: None,
        make: None,
        description: None,
        size: None,
        position: None,
        enabled: None,
        transform: None,
        scale_millis: None,
        serial: None,
        adaptive_sync: None,
        current_mode: None,
        modes: Seq::empty(),
    }
}

/// A draft seeded with every field of a finished record.
pub open spec fn draft_of_record(m: MonitorInformationModel) -> HeadDraftModel {
    HeadDraftModel {
        head: m.head,
        name: Some(m.name),
        model: Some(m.model),
        make: Some(m.make),
        description: Some(m.description),
        size: Some(m.size),
        position: Some(m.position),
        enabled: Some(m.enabled),
        transform: Some(m.transform),
        scale_millis: Some(m.scale_millis),
        serial: m.serial,
        adaptive_sync: m.adaptive_sync,
        current_mode: Some(m.current_mode),
        modes: m.modes,
    }
}

/// Whether a draft can finalize: identity is always present; the enable
/// flag, transform and current-mode reference must have arrived, and at
/// least one mode must be recorded.
pub open spec fn head_buildable(h: HeadDraftModel) -> bool {
    &&& h.enabled is Some
    &&& h.transform is Some
    &&& h.current_mode is Some
    &&& h.modes.len() > 0
}

/// The record a buildable draft finalizes to; absent optional fields take
/// their defaults.
pub open spec fn head_built(h: HeadDraftModel) -> MonitorInformationModel {
    MonitorInformationModel {
        head: h.head,
        name: or_empty(h.name),
        model: or_empty(h.model),
        make: or_empty(h.make),
        description: or_empty(h.description),
        size: match h.size {
            Some(v) => v,
            None => (0, 0),
        },
        position: match h.position {
            Some(v) => v,
            None => (0, 0),
        },
        enabled: match h.enabled {
            Some(v) => v,
            None => 0,
        },
        transform: match h.transform {
            Some(v) => v,
            None => 0,
        },
        scale_millis: match h.scale_millis {
            Some(v) => v,
            None => 0,
        },
        serial: h.serial,
        adaptive_sync: h.adaptive_sync,
        current_mode: match h.current_mode {
            Some(v) => v,
            None => 0,
        },
        modes: h.modes,
    }
}

/// One property-update or lifecycle event against a head object.
#[derive(Debug)]
pub enum HeadEvent {
    Name(String),
    Description(String),
    PhysicalSize(i32, i32),
    /// A new mode child object was announced for the in-progress head.
    Mode(u64),
    CurrentMode(u64),
    Enabled(i32),
    Position(i32, i32),
    /// Raw wire transform code; unknown values are dropped.
    Transform(i32),
    /// Scale in thousandths.
    Scale(i32),
    Make(String),
    Model(String),
    SerialNumber(String),
    /// Raw adaptive-sync code; unknown values are dropped.
    AdaptiveSync(u32),
    /// The head was unplugged.
    Finished,
}

/// One event against the output manager object.
#[derive(Debug)]
pub enum ManagerEvent {
    /// A new head child object was announced.
    Head(u64),
    /// The batch boundary: the enumeration is complete.
    Done,
    Finished,
}

/// One property-update event against a mode object.
#[derive(Debug)]
pub enum ModeEvent {
    Size(i32, i32),
    Refresh(i32),
    Preferred,
    Finished,
}

/// Model of the whole synchronizer state.
pub struct SyncModel {
    pub current_head: Option<HeadDraftModel>,
    pub current_mode: Option<MonitorModeBuilder>,
    pub config: Map<u64, MonitorInformationModel>,
}

/// Finalize any pending mode into the in-progress head: a draft that
/// cannot build, or a mode with no head in progress, is dropped.
pub open spec fn fold_pending_mode(m: SyncModel) -> SyncModel {
    match m.current_mode {
        None => m,
        Some(mb) => SyncModel {
            current_mode: None,
            current_head: match (m.current_head, mb.build_spec()) {
                (Some(h), Some(mode)) => Some(
                    HeadDraftModel { modes: h.modes.push(mode), ..h },
                ),
                (h, _) => h,
            },
            ..m
        },
    }
}

/// Finalize the pending mode and the in-progress head; a buildable head
/// is inserted into (or replaces its entry in) the snapshot, a failed
/// build drops the head from this batch.
pub open spec fn finish_head_model(m: SyncModel) -> SyncModel {
    let m1 = fold_pending_mode(m);
    match m1.current_head {
        None => m1,
        Some(h) => SyncModel {
            current_head: None,
            config: match head_buildable(h) {
                true => m1.config.insert(h.head, head_built(h)),
                false => m1.config,
            },
            ..m1
        },
    }
}

/// Begin a draft for a newly announced head, finishing any head still in
/// progress first; the draft is seeded from the head's previous finished
/// record when one exists.
pub open spec fn create_head_model(m: SyncModel, head: u64) -> SyncModel {
    let m1 = if m.current_head is Some {
        finish_head_model(m)
    } else {
        m
    };
    SyncModel {
        current_head: Some(
            if m1.config.dom().contains(head) {
                HeadDraftModel { head, ..draft_of_record(m1.config[head]) }
            } else {
                fresh_draft(head)
            },
        ),
        ..m1
    }
}

/// Begin a draft for a newly announced mode, finishing any mode still in
/// progress first.
pub open spec fn create_mode_model(m: SyncModel, mode: u64) -> SyncModel {
    let m1 = if m.current_mode is Some {
        fold_pending_mode(m)
    } else {
        m
    };
    SyncModel {
        current_mode: Some(MonitorModeBuilder { mode, size: None, refresh: None, preferred: false }),
        ..m1
    }
}

/// Effect of one head event: property updates thread into the in-progress
/// draft (and are dropped when none is in progress), unknown transform or
/// adaptive-sync codes are dropped, and a mode announcement opens a mode
/// draft. An unplug discards whatever is in progress, removes the head's
/// record, and is published eagerly rather than batched.
pub open spec fn head_event_model(m: SyncModel, head: u64, ev: HeadEvent) -> SyncModel {
    match ev {
        HeadEvent::Mode(mode) => create_mode_model(m, mode),
        HeadEvent::Finished => SyncModel {
            current_head: None,
            current_mode: None,
            config: m.config.remove(head),
        },
        _ => match m.current_head {
            None => m,
            Some(h) => SyncModel {
                current_head: Some(
                    match ev {
                        HeadEvent::Name(n) => HeadDraftModel { name: Some(n@), ..h },
                        HeadEvent::Description(d) => HeadDraftModel {
                            description: Some(d@),
                            ..h
                        },
                        HeadEvent::PhysicalSize(w, hh) => HeadDraftModel {
                            size: Some((w, hh)),
                            ..h
                        },
                        HeadEvent::CurrentMode(cm) => HeadDraftModel {
                            current_mode: Some(cm),
                            ..h
                        },
                        HeadEvent::Enabled(e) => HeadDraftModel { enabled: Some(e), ..h },
                        HeadEvent::Position(x, y) => HeadDraftModel {
                            position: Some((x, y)),
                            ..h
                        },
                        HeadEvent::Transform(raw) => if 0 <= raw <= 7 {
                            HeadDraftModel { transform: Some(raw as u8), ..h }
                        } else {
                            h
                        },
                        HeadEvent::Scale(s) => HeadDraftModel { scale_millis: Some(s), ..h },
                        HeadEvent::Make(mk) => HeadDraftModel { make: Some(mk@), ..h },
                        HeadEvent::Model(md) => HeadDraftModel { model: Some(md@), ..h },
                        HeadEvent::SerialNumber(sn) => HeadDraftModel {
                            serial: Some(sn@),
                            ..h
                        },
                        HeadEvent::AdaptiveSync(raw) => if raw <= 1 {
                            HeadDraftModel { adaptive_sync: Some(raw as u8), ..h }
                        } else {
                            h
                        },
                        _ => h,
                    },
                ),
                ..m
            },
        },
    }
}

/// Effect of one manager event: a head announcement opens a head draft,
/// the batch boundary finalizes and publishes, the manager's own finish
/// changes nothing here.
pub open spec fn manager_event_model(m: SyncModel, ev: ManagerEvent) -> SyncModel {
    match ev {
        ManagerEvent::Head(head) => create_head_model(m, head),
        ManagerEvent::Done => finish_head_model(m),
        ManagerEvent::Finished => m,
    }
}

/// Effect of one mode event: property updates thread into the in-progress
/// mode draft, and are dropped when none is in progress.
pub open spec fn mode_event_model(m: SyncModel, ev: ModeEvent) -> SyncModel {
    match m.current_mode {
        None => m,
        Some(mb) => SyncModel {
            current_mode: Some(
                match ev {
                    ModeEvent::Size(w, h) => MonitorModeBuilder { size: Some((w, h)), ..mb },
                    ModeEvent::Refresh(r) => MonitorModeBuilder { refresh: Some(r), ..mb },
                    ModeEvent::Preferred => MonitorModeBuilder { preferred: true, ..mb },
                    ModeEvent::Finished => mb,
                },
            ),
            ..m
        },
    }
}

/// The synchronizer: the in-progress drafts and the snapshot of finished
/// records. The wire connection around it stays outside; events come in
/// as plain values.
#[derive(Debug)]
pub struct ScreenManagerState {
    pub current_head: Option<MonitorInformationBuilder>,
    pub current_mode: Option<MonitorModeBuilder>,
    pub current_configuration: Snapshot,
}

impl View for ScreenManagerState {
    type V = SyncModel;

    open spec fn view(&self) -> SyncModel {
        SyncModel {
            current_head: match self.current_head {
                Some(b) => Some(b@),
                None => None,
            },
            current_mode: self.current_mode,
            config: self.current_configuration@,
        }
    }
}

impl ScreenManagerState {
    /// Snapshot and any in-progress draft are well formed.
    pub open spec fn wf(self) -> bool {
        &&& self.current_configuration.wf()
        &&& match self.current_head {
            Some(b) => b.modes_wf(),
            None => true,
        }
    }

    pub fn new() -> (r: ScreenManagerState)
        ensures
            r.wf(),
            r@.current_head is None,
            r@.current_mode is None,
            r@.config =~= Map::<u64, MonitorInformationModel>::empty(),
    {
        let r = ScreenManagerState {
            current_head: None,
            current_mode: None,
            current_configuration: Snapshot::new(),
        };
        r
    }

    /// Finalize any pending mode into the in-progress head.
    pub fn finish_mode(&mut self)
        requires
            old(self).wf(),
        ensures
            final(self).wf(),
            final(self)@ == fold_pending_mode(old(self)@),
    {
        match self.current_mode.take() {
            Some(mb) => {
                match mb.build() {
                    Some(m) => {
                        match self.current_head.take() {
                            Some(mut hb) => {
                                hb.add_mode(m);
                                self.current_head = Some(hb);
                            },
                            None => {},
                        }
                    },
                    None => {
                        // an incomplete mode draft is dropped
                    },
                }
            },
            None => {},
        }
    }

    /// Finalize the pending mode and the in-progress head, inserting a
    /// buildable head into the snapshot; an incomplete head is dropped
    /// from this batch.
    pub fn finish_head(&mut self)
        requires
            old(self).wf(),
        ensures
            final(self).wf(),
            final(self)@ == finish_head_model(old(self)@),
    {
        self.finish_mode();
        match self.current_head.take() {
            Some(hb) => {
                match hb.build() {
                    Some(h) => {
                        let ghost pre = self.current_configuration;
                        self.current_configuration.insert(h);
                        proof {
                            lemma_snapshot_view_insert(pre, self.current_configuration, h);
                        }
                    },
                    None => {
                        // builder failure: the head is dropped, the
                        // synchronizer continues
                    },
                }
            },
            None => {},
        }
    }

    /// Begin a draft for a newly announced head, seeded from its previous
    /// finished record when one exists.
    pub fn create_new_head(&mut self, head: u64)
        requires
            old(self).wf(),
        ensures
            final(self).wf(),
            final(self)@ == create_head_model(old(self)@, head),
    {
        if self.current_head.is_some() {
            self.finish_head();
        }
        let builder = match self.current_configuration.get(head) {
            Some(mi) => {
                proof {
                    crate::output::lemma_get_props(self.current_configuration, head);
                    assert(self.current_configuration@.dom().contains(head));
                    assert(self.current_configuration@[head] == mi@);
                }
                MonitorInformationBuilder::from_value(mi)
            },
            None => {
                proof {
                    assert(!self.current_configuration@.dom().contains(head));
                }
                MonitorInformationBuilder::new(head)
            },
        };
        proof {
            assert(builder@.head == head);
            assert(builder@ == (HeadDraftModel { head, ..builder@ }));
        }
        self.current_head = Some(builder);
    }

    /// Begin a draft for a newly announced mode.
    pub fn create_new_mode(&mut self, mode: u64)
        requires
            old(self).wf(),
        ensures
            final(self).wf(),
            final(self)@ == create_mode_model(old(self)@, mode),
    {
        if self.current_mode.is_some() {
            self.finish_mode();
        }
        self.current_mode = Some(MonitorModeBuilder::new(mode));
    }

    /// Thread one head event into the state. Returns whether the snapshot
    /// must be published now: only an unplug is pushed eagerly.
    pub fn handle_head_event(&mut self, head: u64, ev: HeadEvent) -> (publish: bool)
        requires
            old(self).wf(),
        ensures
            final(self).wf(),
            final(self)@ == head_event_model(old(self)@, head, ev),
            publish == (ev is Finished),
    {
        match ev {
            HeadEvent::Mode(mode) => {
                self.create_new_mode(mode);
                false
            },
            HeadEvent::Finished => {
                // the unplugged head's drafts are worthless now: drop them
                self.current_mode = None;
                self.current_head = None;
                let ghost pre = self.current_configuration;
                self.current_configuration.remove_key(head);
                proof {
                    lemma_snapshot_view_remove(pre, self.current_configuration, head);
                }
                true
            },
            _ => {
                match self.current_head.take() {
                    Some(mut b) => {
                        match ev {
                            HeadEvent::Name(n) => {
                                b.name = Some(n);
                            },
                            HeadEvent::Description(d) => {
                                b.description = Some(d);
                            },
                            HeadEvent::PhysicalSize(w, h) => {
                                b.size = Some((w, h));
                            },
                            HeadEvent::CurrentMode(cm) => {
                                b.current_mode = Some(cm);
                            },
                            HeadEvent::Enabled(e) => {
                                b.enabled = Some(e);
                            },
                            HeadEvent::Position(x, y) => {
                                b.position = Some((x, y));
                            },
                            HeadEvent::Transform(raw) => {
                                if 0 <= raw && raw <= 7 {
                                    b.transform = Some(raw as u8);
                                } else {
                                    // unknown transform codes are dropped
                                }
                            },
                            HeadEvent::Scale(s) => {
                                b.scale_millis = Some(s);
                            },
                            HeadEvent::Make(mk) => {
                                b.make = Some(mk);
                            },
                            HeadEvent::Model(md) => {
                                b.model = Some(md);
                            },
                            HeadEvent::SerialNumber(sn) => {
                                b.serial = Some(sn);
                            },
                            HeadEvent::AdaptiveSync(raw) => {
                                if raw <= 1 {
                                    b.adaptive_sync = Some(raw as u8);
                                } else {
                                    // unknown adaptive-sync codes are dropped
                                }
                            },
                            _ => {},
                        }
                        self.current_head = Some(b);
                    },
                    None => {},
                }
                false
            },
        }
    }

    /// Thread one manager event into the state. Returns whether the
    /// snapshot must be published now: the batch boundary publishes.
    pub fn handle_manager_event(&mut self, ev: ManagerEvent) -> (publish: bool)
        requires
            old(self).wf(),
        ensures
            final(self).wf(),
            final(self)@ == manager_event_model(old(self)@, ev),
            publish == (ev is Done),
    {
        match ev {
            ManagerEvent::Head(head) => {
                self.create_new_head(head);
                false
            },
            ManagerEvent::Done => {
                self.finish_head();
                true
            },
            ManagerEvent::Finished => false,
        }
    }

    /// Thread one mode event into the state.
    pub fn handle_mode_event(&mut self, ev: ModeEvent)
        requires
            old(self).wf(),
        ensures
            final(self).wf(),
            final(self)@ == mode_event_model(old(self)@, ev),
    {
        match self.current_mode.take() {
            Some(mut mb) => {
                match ev {
                    ModeEvent::Size(w, h) => {
                        mb.size = Some((w, h));
                    },
                    ModeEvent::Refresh(r) => {
                        mb.refresh = Some(r);
                    },
                    ModeEvent::Preferred => {
                        mb.preferred = true;
                    },
                    ModeEvent::Finished => {},
                }
                self.current_mode = Some(mb);
            },
            None => {},
        }
    }

    /// Translate the desired per-output settings into protocol requests
    /// against this state's snapshot.
    pub fn update_head_configuration(
        &self,
        monitors: &Vec<(u64, crate::applier::SwayMonitor)>,
    ) -> (r: Vec<crate::applier::HeadRequest>)
        ensures
            r@ == crate::applier::requests_upto(
                monitors@,
                self.current_configuration,
                monitors@.len() as int,
            ),
    {
        crate::applier::plan_head_requests(monitors, &self.current_configuration)
    }
}

/// Inserting a finished record updates the snapshot's map view at exactly
/// its key.
proof fn lemma_snapshot_view_insert(pre: Snapshot, post: Snapshot, m: MonitorInformation)
    requires
        post.spec_get(m.head) == Some(m),
        forall|k: u64| k != m.head ==> post.spec_get(k) == pre.spec_get(k),
    ensures
        post@ == pre@.insert(m.head, m@),
{
    assert forall|k: u64| #[trigger]
        post@.dom().contains(k) <==> pre@.insert(m.head, m@).dom().contains(k) by {
        lemma_contains_iff_get(pre, k);
        lemma_contains_iff_get(post, k);
    }
    assert forall|k: u64| post@.dom().contains(k) implies #[trigger] post@[k] == pre@.insert(
        m.head,
        m@,
    )[k] by {
        lemma_contains_iff_get(pre, k);
        lemma_contains_iff_get(post, k);
    }
    assert(post@ =~= pre@.insert(m.head, m@));
}

/// Removing a key updates the snapshot's map view at exactly that key.
proof fn lemma_snapshot_view_remove(pre: Snapshot, post: Snapshot, key: u64)
    requires
        !post.contains_key(key),
        forall|k: u64| k != key ==> post.spec_get(k) == pre.spec_get(k),
    ensures
        post@ == pre@.remove(key),
{
    assert forall|k: u64| #[trigger]
        post@.dom().contains(k) <==> pre@.remove(key).dom().contains(k) by {
        lemma_contains_iff_get(pre, k);
        lemma_contains_iff_get(post, k);
    }
    assert forall|k: u64| post@.dom().contains(k) implies #[trigger] post@[k] == pre@.remove(
        key,
    )[k] by {
        lemma_contains_iff_get(pre, k);
        lemma_contains_iff_get(post, k);
    }
    assert(post@ =~= pre@.remove(key));
}

/// A snapshot holds a key exactly when its lookup yields a record.
proof fn lemma_contains_iff_get(s: Snapshot, k: u64)
    ensures
        s.contains_key(k) <==> s.spec_get(k) is Some,
{
}

} // verus!
