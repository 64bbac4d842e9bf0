use workplaces::catalog::AppConfiguration;
use workplaces::daemon::DaemonState;
use workplaces::geometry::ScreenPositionRelative;
use workplaces::input::{InputReadings, MonitorInputSourceMatcher};
use workplaces::output::Snapshot;
use workplaces::profile::{ScreenConfiguration, ScreensProfile};
use workplaces::sync::{HeadEvent, ManagerEvent, ModeEvent, ScreenManagerState};

fn announce_head(state: &mut ScreenManagerState, key: u64, name: &str, make: &str) {
    assert!(!state.handle_manager_event(ManagerEvent::Head(key)));
    assert!(!state.handle_head_event(key, HeadEvent::Name(name.to_string())));
    assert!(!state.handle_head_event(key, HeadEvent::Make(make.to_string())));
    assert!(!state.handle_head_event(key, HeadEvent::Enabled(1)));
    assert!(!state.handle_head_event(key, HeadEvent::Transform(0)));
}

fn announce_mode(state: &mut ScreenManagerState, head: u64, id: u64, w: i32, h: i32, refresh: i32, preferred: bool) {
    assert!(!state.handle_head_event(head, HeadEvent::Mode(id)));
    state.handle_mode_event(ModeEvent::Size(w, h));
    state.handle_mode_event(ModeEvent::Refresh(refresh));
    if preferred {
        state.handle_mode_event(ModeEvent::Preferred);
    }
}

fn plugged_in_pair() -> ScreenManagerState {
    let mut state = ScreenManagerState::new();
    announce_head(&mut state, 1, "eDP-1", "BOE");
    announce_mode(&mut state, 1, 10, 1920, 1080, 60000, true);
    assert!(!state.handle_head_event(1, HeadEvent::CurrentMode(10)));
    announce_head(&mut state, 2, "DP-1", "Dell");
    assert!(!state.handle_head_event(2, HeadEvent::SerialNumber("ABC123".to_string())));
    announce_mode(&mut state, 2, 20, 2560, 1440, 144000, true);
    assert!(!state.handle_head_event(2, HeadEvent::CurrentMode(20)));
    assert!(state.handle_manager_event(ManagerEvent::Done));
    state
}

#[test]
fn a_batch_of_events_builds_the_snapshot() {
    let state = plugged_in_pair();
    assert_eq!(state.current_configuration.len(), 2);
    let laptop = state.current_configuration.get(1).unwrap();
    assert_eq!(laptop.name, "eDP-1");
    assert_eq!(laptop.modes.len(), 1);
    assert_eq!(laptop.modes[0].size, (1920, 1080));
    assert!(laptop.modes[0].preferred);
    let external = state.current_configuration.get(2).unwrap();
    assert_eq!(external.serial.as_deref(), Some("ABC123"));
    assert_eq!(external.current_mode, 20);
}

#[test]
fn a_head_without_modes_is_a_builder_failure() {
    let mut state = ScreenManagerState::new();
    announce_head(&mut state, 1, "eDP-1", "BOE");
    assert!(!state.handle_head_event(1, HeadEvent::CurrentMode(10)));
    // no mode was ever announced: finalizing drops the head
    assert!(state.handle_manager_event(ManagerEvent::Done));
    assert_eq!(state.current_configuration.len(), 0);
}

#[test]
fn a_head_missing_required_fields_is_dropped() {
    let mut state = ScreenManagerState::new();
    assert!(!state.handle_manager_event(ManagerEvent::Head(1)));
    assert!(!state.handle_head_event(1, HeadEvent::Name("eDP-1".to_string())));
    announce_mode(&mut state, 1, 10, 1920, 1080, 60000, true);
    // the transform, enable flag and current mode never arrived
    assert!(state.handle_manager_event(ManagerEvent::Done));
    assert_eq!(state.current_configuration.len(), 0);
}

#[test]
fn an_incomplete_mode_is_dropped_quietly() {
    let mut state = ScreenManagerState::new();
    announce_head(&mut state, 1, "eDP-1", "BOE");
    // this mode never receives its refresh rate
    assert!(!state.handle_head_event(1, HeadEvent::Mode(11)));
    state.handle_mode_event(ModeEvent::Size(1280, 720));
    announce_mode(&mut state, 1, 10, 1920, 1080, 60000, true);
    assert!(!state.handle_head_event(1, HeadEvent::CurrentMode(10)));
    assert!(state.handle_manager_event(ManagerEvent::Done));
    let laptop = state.current_configuration.get(1).unwrap();
    assert_eq!(laptop.modes.len(), 1);
    assert_eq!(laptop.modes[0].mode, 10);
}

#[test]
fn unknown_transform_and_adaptive_sync_codes_are_dropped() {
    let mut state = ScreenManagerState::new();
    announce_head(&mut state, 1, "eDP-1", "BOE");
    assert!(!state.handle_head_event(1, HeadEvent::Transform(99)));
    assert!(!state.handle_head_event(1, HeadEvent::AdaptiveSync(7)));
    assert!(!state.handle_head_event(1, HeadEvent::AdaptiveSync(1)));
    announce_mode(&mut state, 1, 10, 1920, 1080, 60000, true);
    assert!(!state.handle_head_event(1, HeadEvent::CurrentMode(10)));
    assert!(state.handle_manager_event(ManagerEvent::Done));
    let laptop = state.current_configuration.get(1).unwrap();
    // the unknown transform left the earlier value standing
    assert_eq!(laptop.transform, 0);
    assert_eq!(laptop.adaptive_sync, Some(1));
}

#[test]
fn reannouncement_keeps_known_fields() {
    let mut state = plugged_in_pair();
    // the same head reappears; only its name is streamed this time
    assert!(!state.handle_manager_event(ManagerEvent::Head(1)));
    assert!(!state.handle_head_event(1, HeadEvent::Name("eDP-1".to_string())));
    assert!(state.handle_manager_event(ManagerEvent::Done));
    let laptop = state.current_configuration.get(1).unwrap();
    // make, modes and current mode survive from the previous record
    assert_eq!(laptop.make, "BOE");
    assert_eq!(laptop.modes.len(), 1);
    assert_eq!(laptop.current_mode, 10);
}

// Scenario: unplugging removes the record immediately, without waiting
// for a batch boundary, and a re-resolution that finds no connected
// profile leaves the previously active profile untouched.
#[test]
fn unplugging_is_eager_and_keeps_the_active_profile() {
    let mut state = plugged_in_pair();
    // the unplug path publishes immediately
    assert!(state.handle_head_event(2, HeadEvent::Finished));
    assert_eq!(state.current_configuration.len(), 1);
    assert!(state.current_configuration.get(2).is_none());

    let external_only = ScreensProfile {
        screens: vec![ScreenConfiguration {
            identifier: "DP-1".to_string(),
            scale_millis: 1000,
            rotation: workplaces::geometry::ScreenRotation::Landscape,
            display_output_code: MonitorInputSourceMatcher::Any,
            wallpaper: String::new(),
            position: ScreenPositionRelative::Root,
            workspaces: Vec::new(),
            enabled: true,
        }],
        scripts: Vec::new(),
    };
    let mut daemon = DaemonState {
        head_state: Snapshot::new(),
        config: AppConfiguration {
            hyprland_config_file: String::new(),
            profiles: vec![("external".to_string(), external_only)],
        },
        current_profile: Some("external".to_string()),
    };
    let winner = daemon.observe_snapshot(state.current_configuration.clone(), &InputReadings::new());
    assert_eq!(winner, None);
    // no connected profile: the active profile stays as it was
    assert_eq!(daemon.current_profile.as_deref(), Some("external"));
    assert_eq!(daemon.head_state.len(), 1);
}

#[test]
fn observing_a_snapshot_records_the_winner() {
    let state = plugged_in_pair();
    let laptop_only = ScreensProfile {
        screens: vec![ScreenConfiguration {
            identifier: "eDP-1".to_string(),
            scale_millis: 1000,
            rotation: workplaces::geometry::ScreenRotation::Landscape,
            display_output_code: MonitorInputSourceMatcher::Any,
            wallpaper: String::new(),
            position: ScreenPositionRelative::Root,
            workspaces: Vec::new(),
            enabled: true,
        }],
        scripts: Vec::new(),
    };
    let mut daemon = DaemonState {
        head_state: Snapshot::new(),
        config: AppConfiguration {
            hyprland_config_file: String::new(),
            profiles: vec![("laptop".to_string(), laptop_only)],
        },
        current_profile: None,
    };
    let winner = daemon.observe_snapshot(state.current_configuration.clone(), &InputReadings::new());
    assert_eq!(winner, Some(0));
    assert_eq!(daemon.current_profile.as_deref(), Some("laptop"));
}

#[test]
fn switching_profiles_by_name() {
    let state = plugged_in_pair();
    let laptop_only = ScreensProfile {
        screens: vec![ScreenConfiguration {
            identifier: "eDP-1".to_string(),
            scale_millis: 1000,
            rotation: workplaces::geometry::ScreenRotation::Landscape,
            display_output_code: MonitorInputSourceMatcher::Any,
            wallpaper: String::new(),
            position: ScreenPositionRelative::Root,
            workspaces: Vec::new(),
            enabled: true,
        }],
        scripts: Vec::new(),
    };
    let mut daemon = DaemonState {
        head_state: state.current_configuration.clone(),
        config: AppConfiguration {
            hyprland_config_file: String::new(),
            profiles: vec![("laptop".to_string(), laptop_only)],
        },
        current_profile: None,
    };
    assert!(daemon.apply_profile_named(&"missing".to_string()).is_none());
    assert!(daemon.current_profile.is_none());
    let plan = daemon
        .apply_profile_named(&"laptop".to_string())
        .expect("the profile exists")
        .expect("the layout resolves");
    assert_eq!(plan.monitors.len(), 1);
    assert_eq!(daemon.current_profile.as_deref(), Some("laptop"));
}

#[test]
fn unplugging_discards_the_in_progress_draft() {
    let mut state = plugged_in_pair();
    // a new head starts streaming, then vanishes before the batch ends
    assert!(!state.handle_manager_event(ManagerEvent::Head(3)));
    assert!(!state.handle_head_event(3, HeadEvent::Name("HDMI-A-1".to_string())));
    assert!(!state.handle_head_event(3, HeadEvent::Enabled(1)));
    assert!(!state.handle_head_event(3, HeadEvent::Transform(0)));
    announce_mode(&mut state, 3, 30, 1280, 720, 60000, true);
    assert!(state.handle_head_event(3, HeadEvent::Finished));
    assert!(state.handle_manager_event(ManagerEvent::Done));
    // the discarded draft never reaches the snapshot
    assert_eq!(state.current_configuration.len(), 2);
    assert!(state.current_configuration.get(3).is_none());
}
