use workplaces::applier::{ApplyPlan, HeadRequest};
use workplaces::catalog::AppConfiguration;
use workplaces::daemon::DaemonState;
use workplaces::geometry::{ScreenPositionRelative, ScreenRotation};
use workplaces::input::{InputReadings, MatcherParseError, MatcherScalar, MonitorInputSourceMatcher};
use workplaces::layout::LayoutError;
use workplaces::output::{MonitorInformation, MonitorMode, Snapshot};
use workplaces::profile::{ScreenConfiguration, ScreensProfile};
use workplaces::sync::{HeadEvent, ManagerEvent, ModeEvent, ScreenManagerState};

fn mode(id: u64, w: i32, h: i32, refresh_millihz: i32, preferred: bool) -> MonitorMode {
    MonitorMode {
        mode: id,
        size: (w, h),
        refresh_millihz,
        preferred,
    }
}

fn output(key: u64, name: &str, make: &str, serial: Option<&str>, modes: Vec<MonitorMode>) -> MonitorInformation {
    MonitorInformation {
        head: key,
        name: name.to_string(),
        model: String::new(),
        make: make.to_string(),
        description: String::new(),
        size: (600, 340),
        position: (0, 0),
        enabled: 1,
        transform: 0,
        scale_millis: 1000,
        serial: serial.map(|s| s.to_string()),
        adaptive_sync: None,
        current_mode: modes[0].mode,
        modes,
    }
}

fn screen(ident: &str, position: ScreenPositionRelative, enabled: bool) -> ScreenConfiguration {
    ScreenConfiguration {
        identifier: ident.to_string(),
        scale_millis: 1000,
        rotation: ScreenRotation::Landscape,
        display_output_code: MonitorInputSourceMatcher::Any,
        wallpaper: String::new(),
        position,
        workspaces: Vec::new(),
        enabled,
    }
}

fn laptop_and_external() -> Snapshot {
    Snapshot {
        outputs: vec![
            output(1, "eDP-1", "BOE", None, vec![mode(10, 1920, 1080, 60000, true)]),
            output(
                2,
                "DP-1",
                "Dell",
                Some("ABC123"),
                vec![mode(20, 2560, 1440, 144000, true)],
            ),
        ],
    }
}

fn two_screen_profile() -> ScreensProfile {
    ScreensProfile {
        screens: vec![
            screen("eDP-1", ScreenPositionRelative::Root, true),
            screen("DP-1", ScreenPositionRelative::Right("eDP-1".to_string()), true),
        ],
        scripts: Vec::new(),
    }
}

fn monitor_of<'a>(plan: &'a ApplyPlan, name: &str) -> &'a workplaces::applier::SwayMonitor {
    &plan
        .monitors
        .iter()
        .find(|(_, sm)| sm.name == name)
        .expect("monitor missing from plan")
        .1
}

// Weight is the number of entries plus the number of input-specific ones.
#[test]
fn weight_counts_entries_and_specific_inputs() {
    let mut profile = two_screen_profile();
    assert_eq!(profile.weight(), 2);
    profile.screens[1].display_output_code = MonitorInputSourceMatcher::Input(17);
    assert_eq!(profile.weight(), 3);
    profile.screens[0].display_output_code = MonitorInputSourceMatcher::Input(15);
    assert_eq!(profile.weight(), 4);
    // adding any entry raises the weight strictly
    profile.screens.push(screen("HDMI-A-1", ScreenPositionRelative::Root, true));
    assert_eq!(profile.weight(), 5);
}

#[test]
fn empty_profile_weighs_nothing_and_always_connects() {
    let profile = ScreensProfile { screens: Vec::new(), scripts: Vec::new() };
    assert_eq!(profile.weight(), 0);
    assert!(profile.is_connected(&laptop_and_external(), &InputReadings::new()));
}

#[test]
fn is_connected_matches_by_name_and_by_make_serial() {
    let snap = laptop_and_external();
    let inputs = InputReadings::new();
    let by_name = ScreensProfile {
        screens: vec![screen("DP-1", ScreenPositionRelative::Root, true)],
        scripts: Vec::new(),
    };
    assert!(by_name.is_connected(&snap, &inputs));
    let by_make_serial = ScreensProfile {
        screens: vec![screen("Dell ABC123", ScreenPositionRelative::Root, true)],
        scripts: Vec::new(),
    };
    assert!(by_make_serial.is_connected(&snap, &inputs));
    let absent = ScreensProfile {
        screens: vec![screen("HDMI-A-1", ScreenPositionRelative::Root, true)],
        scripts: Vec::new(),
    };
    assert!(!absent.is_connected(&snap, &inputs));
}

#[test]
fn is_connected_honours_live_input_readings() {
    let snap = laptop_and_external();
    let mut profile = two_screen_profile();
    profile.screens[1].display_output_code = MonitorInputSourceMatcher::Input(17);

    // no reading for DP-1: optimistic default accepts
    assert!(profile.is_connected(&snap, &InputReadings::new()));

    // a reading on the expected input accepts
    let mut on_expected = InputReadings::new();
    on_expected.push("DP-1".to_string(), 17);
    assert!(profile.is_connected(&snap, &on_expected));

    // a reading on another input rejects
    let mut on_other = InputReadings::new();
    on_other.push("DP-1".to_string(), 15);
    assert!(!profile.is_connected(&snap, &on_other));
}

// Selection picks the strictly heaviest connected profile; ties go to the
// later catalog entry, deterministically for a fixed catalog order.
#[test]
fn selection_prefers_heavier_profiles_and_is_deterministic() {
    let snap = laptop_and_external();
    let inputs = InputReadings::new();
    let light = ScreensProfile {
        screens: vec![screen("eDP-1", ScreenPositionRelative::Root, true)],
        scripts: Vec::new(),
    };
    let heavy = two_screen_profile();
    let config = AppConfiguration {
        hyprland_config_file: String::new(),
        profiles: vec![
            ("heavy".to_string(), heavy),
            ("light".to_string(), light.clone()),
        ],
    };
    // the heavier profile wins although it stands first
    assert_eq!(workplaces::daemon::select_profile(&config, &snap, &inputs), Some(0));

    let tie = AppConfiguration {
        hyprland_config_file: String::new(),
        profiles: vec![
            ("one".to_string(), light.clone()),
            ("two".to_string(), light.clone()),
        ],
    };
    let first = workplaces::daemon::select_profile(&tie, &snap, &inputs);
    assert_eq!(first, Some(1));
    for _ in 0..5 {
        assert_eq!(workplaces::daemon::select_profile(&tie, &snap, &inputs), first);
    }
}

#[test]
fn selection_reports_nothing_when_no_profile_connects() {
    let snap = laptop_and_external();
    let absent = ScreensProfile {
        screens: vec![screen("HDMI-A-1", ScreenPositionRelative::Root, true)],
        scripts: Vec::new(),
    };
    let config = AppConfiguration {
        hyprland_config_file: String::new(),
        profiles: vec![("absent".to_string(), absent)],
    };
    assert_eq!(
        workplaces::daemon::select_profile(&config, &snap, &InputReadings::new()),
        None
    );
}

// Scenario: eDP-1 at the root and DP-1 placed Right of it resolve to
// (0,0) and (1920,0) after normalization.
#[test]
fn two_outputs_right_of_laptop() {
    let plan = two_screen_profile()
        .apply(&laptop_and_external())
        .expect("layout resolves");
    let laptop = monitor_of(&plan, "eDP-1");
    let external = monitor_of(&plan, "DP-1");
    assert_eq!((laptop.pos_x, laptop.pos_y), (0, 0));
    assert_eq!((external.pos_x, external.pos_y), (1920, 0));
    assert_eq!((external.width, external.height), (2560, 1440));
    assert_eq!(external.fps_millihz, 144000);
}

// Normalization never emits negative coordinates and anchors both minima
// at zero: a screen placed Left of the root lands at 0 and pushes the
// root to the right.
#[test]
fn normalization_anchors_minima_at_zero() {
    let profile = ScreensProfile {
        screens: vec![
            screen("eDP-1", ScreenPositionRelative::Root, true),
            screen("DP-1", ScreenPositionRelative::Left("eDP-1".to_string()), true),
        ],
        scripts: Vec::new(),
    };
    let plan = profile.apply(&laptop_and_external()).expect("layout resolves");
    let laptop = monitor_of(&plan, "eDP-1");
    let external = monitor_of(&plan, "DP-1");
    assert_eq!((external.pos_x, external.pos_y), (0, 0));
    assert_eq!((laptop.pos_x, laptop.pos_y), (2560, 0));
    for (_, sm) in &plan.monitors {
        assert!(sm.pos_x >= 0 && sm.pos_y >= 0);
    }
}

#[test]
fn normalize_positions_shifts_raw_coordinates() {
    let raw = vec![(-100i64, 50i64), (20, -7), (0, 0)];
    let normalized = workplaces::layout::normalize_positions(&raw);
    assert_eq!(normalized, vec![(0, 57), (120, 0), (100, 7)]);
}

// Rotation law: portrait orientations swap width and height, landscape
// ones keep them, and applying the landscape transform twice changes
// nothing more than applying it once.
#[test]
fn rotation_swaps_and_identity() {
    let size = (1920, 1080);
    assert_eq!(ScreenRotation::Portrait.transform_size(size), (1080, 1920));
    assert_eq!(ScreenRotation::PortraitReversed.transform_size(size), (1080, 1920));
    assert_eq!(ScreenRotation::Landscape.transform_size(size), size);
    assert_eq!(ScreenRotation::LandscapeReversed.transform_size(size), size);
    let once = ScreenRotation::Landscape.transform_size(size);
    assert_eq!(ScreenRotation::Landscape.transform_size(once), once);
}

#[test]
fn transform_codes_match_the_wire_protocol() {
    assert_eq!(ScreenRotation::Landscape.transform_id(), 0);
    assert_eq!(ScreenRotation::Portrait.transform_id(), 1);
    assert_eq!(ScreenRotation::LandscapeReversed.transform_id(), 2);
    assert_eq!(ScreenRotation::PortraitReversed.transform_id(), 3);
}

#[test]
fn rotated_screen_offsets_use_the_effective_size() {
    // a portrait laptop is 1080 wide, so a screen to its Right starts at x = 1080
    let mut profile = two_screen_profile();
    profile.screens[0].rotation = ScreenRotation::Portrait;
    let plan = profile.apply(&laptop_and_external()).expect("layout resolves");
    let external = monitor_of(&plan, "DP-1");
    assert_eq!((external.pos_x, external.pos_y), (1080, 0));
}

#[test]
fn offset_rules_follow_the_relation() {
    let parent = (1920, 1080);
    let own = (800, 600);
    assert_eq!(ScreenPositionRelative::Root.offset(parent, own), (0, 0));
    assert_eq!(
        ScreenPositionRelative::Over(String::new()).offset(parent, own),
        (0, -600)
    );
    assert_eq!(
        ScreenPositionRelative::Under(String::new()).offset(parent, own),
        (0, 1080)
    );
    assert_eq!(
        ScreenPositionRelative::Left(String::new()).offset(parent, own),
        (-800, 0)
    );
    assert_eq!(
        ScreenPositionRelative::Right(String::new()).offset(parent, own),
        (1920, 0)
    );
    assert_eq!(
        ScreenPositionRelative::LeftUnder(String::new()).offset(parent, own),
        (-800, 1080)
    );
    assert_eq!(
        ScreenPositionRelative::RightOver(String::new()).offset(parent, own),
        (1920, -600)
    );
    assert_eq!(
        ScreenPositionRelative::Mirror(String::new()).offset(parent, own),
        (0, 0)
    );
}

#[test]
fn parent_names_the_referenced_identifier() {
    assert_eq!(ScreenPositionRelative::Root.parent(), None);
    assert_eq!(
        ScreenPositionRelative::Right("eDP-1".to_string()).parent(),
        Some("eDP-1")
    );
    assert_eq!(
        ScreenPositionRelative::Mirror("DP-1".to_string()).parent(),
        Some("DP-1")
    );
}

// Mirror screens inherit the parent's position exactly, whatever their
// own size.
#[test]
fn mirror_screen_inherits_parent_position() {
    let profile = ScreensProfile {
        screens: vec![
            screen("eDP-1", ScreenPositionRelative::Root, true),
            screen("DP-1", ScreenPositionRelative::Mirror("eDP-1".to_string()), true),
        ],
        scripts: Vec::new(),
    };
    let plan = profile.apply(&laptop_and_external()).expect("layout resolves");
    let laptop = monitor_of(&plan, "eDP-1");
    let external = monitor_of(&plan, "DP-1");
    assert_eq!((external.pos_x, external.pos_y), (laptop.pos_x, laptop.pos_y));
    assert_eq!(external.mirror.as_deref(), Some("eDP-1"));
    assert_eq!(laptop.mirror, None);
}

// Scenario: a parent identifier absent from the catalog attaches the
// screen under the root at (0,0) instead of failing.
#[test]
fn dangling_parent_attaches_under_root() {
    let profile = ScreensProfile {
        screens: vec![
            screen("eDP-1", ScreenPositionRelative::Root, true),
            screen("DP-1", ScreenPositionRelative::Right("HDMI-A-1".to_string()), true),
        ],
        scripts: Vec::new(),
    };
    let plan = profile.apply(&laptop_and_external()).expect("layout resolves");
    let external = monitor_of(&plan, "DP-1");
    assert_eq!((external.pos_x, external.pos_y), (0, 0));
}

#[test]
fn cyclic_parent_references_are_detected() {
    let profile = ScreensProfile {
        screens: vec![
            screen("eDP-1", ScreenPositionRelative::Right("DP-1".to_string()), true),
            screen("DP-1", ScreenPositionRelative::Right("eDP-1".to_string()), true),
        ],
        scripts: Vec::new(),
    };
    assert_eq!(
        profile.apply(&laptop_and_external()).unwrap_err(),
        LayoutError::CyclicPlacement
    );
}

#[test]
fn disabled_parents_take_no_room() {
    let mut profile = two_screen_profile();
    profile.screens[0].enabled = false;
    let plan = profile.apply(&laptop_and_external()).expect("layout resolves");
    let external = monitor_of(&plan, "DP-1");
    // the disabled parent's effective size is zero, so Right means no offset
    assert_eq!((external.pos_x, external.pos_y), (0, 0));
}

#[test]
fn workspace_claims_are_first_come_first_served() {
    let snap = laptop_and_external();
    let mut profile = two_screen_profile();
    profile.screens[0].workspaces = vec![1, 2, 3];
    profile.screens[1].workspaces = vec![3, 4];
    let plan = profile.apply(&snap).expect("layout resolves");
    assert_eq!(
        plan.workspace_moves,
        vec![
            (1, "eDP-1".to_string()),
            (2, "eDP-1".to_string()),
            (3, "eDP-1".to_string()),
            (4, "DP-1".to_string()),
        ]
    );
}

#[test]
fn disabled_monitors_claim_no_workspaces() {
    let snap = laptop_and_external();
    let mut profile = two_screen_profile();
    profile.screens[0].workspaces = vec![1];
    profile.screens[0].enabled = false;
    profile.screens[1].workspaces = vec![1, 2];
    let plan = profile.apply(&snap).expect("layout resolves");
    assert_eq!(
        plan.workspace_moves,
        vec![(1, "DP-1".to_string()), (2, "DP-1".to_string())]
    );
}

#[test]
fn input_specific_entries_request_switches() {
    let snap = laptop_and_external();
    let mut profile = two_screen_profile();
    profile.screens[1].display_output_code = MonitorInputSourceMatcher::Input(17);
    let plan = profile.apply(&snap).expect("layout resolves");
    assert_eq!(plan.input_switches, vec![("DP-1".to_string(), 17)]);
}

#[test]
fn scripts_are_split_on_spaces() {
    let snap = laptop_and_external();
    let mut profile = two_screen_profile();
    profile.scripts = vec![
        "swaymsg reload".to_string(),
        "notify-send done  now".to_string(),
    ];
    let plan = profile.apply(&snap).expect("layout resolves");
    assert_eq!(plan.commands[0], vec!["swaymsg".to_string(), "reload".to_string()]);
    assert_eq!(
        plan.commands[1],
        vec![
            "notify-send".to_string(),
            "done".to_string(),
            String::new(),
            "now".to_string(),
        ]
    );
}

#[test]
fn head_requests_enable_position_and_disable() {
    let snap = laptop_and_external();
    let mut profile = two_screen_profile();
    profile.screens[1].enabled = false;
    profile.screens[1].rotation = ScreenRotation::Portrait;
    let plan = profile.apply(&snap).expect("layout resolves");
    let state = {
        let mut s = ScreenManagerState::new();
        s.current_configuration = snap;
        s
    };
    let requests = state.update_head_configuration(&plan.monitors);
    assert_eq!(requests.len(), 2);
    match &requests[0] {
        HeadRequest::Enable { head, pos_x, pos_y, scale_millis, transform } => {
            assert_eq!(*head, 1);
            assert_eq!((*pos_x, *pos_y), (0, 0));
            assert_eq!(*scale_millis, 1000);
            assert_eq!(*transform, 0);
        },
        other => panic!("expected an enable request, got {:?}", other),
    }
    assert!(matches!(&requests[1], HeadRequest::Disable { head: 2 }));
}

#[test]
fn head_requests_skip_unplugged_heads() {
    let snap = laptop_and_external();
    let plan = two_screen_profile().apply(&snap).expect("layout resolves");
    let mut state = ScreenManagerState::new();
    state.current_configuration = snap;
    state.current_configuration.remove_key(2);
    let requests = state.update_head_configuration(&plan.monitors);
    assert_eq!(requests.len(), 1);
    assert!(matches!(&requests[0], HeadRequest::Enable { head: 1, .. }));
}

#[test]
fn matcher_accepts_by_code_or_anything() {
    assert!(MonitorInputSourceMatcher::Any.matches(17));
    assert!(MonitorInputSourceMatcher::Input(17).matches(17));
    assert!(!MonitorInputSourceMatcher::Input(17).matches(15));
    assert_eq!(MonitorInputSourceMatcher::default(), MonitorInputSourceMatcher::Any);
}

#[test]
fn matcher_scalars_parse_or_name_their_error() {
    let ok = |s: &MatcherScalar| workplaces::input::matcher_from_scalar(s).unwrap();
    let err = |s: &MatcherScalar| workplaces::input::matcher_from_scalar(s).unwrap_err();
    assert_eq!(ok(&MatcherScalar::UnsignedNumber(100)), MonitorInputSourceMatcher::Input(100));
    assert_eq!(ok(&MatcherScalar::Null), MonitorInputSourceMatcher::Any);
    assert_eq!(
        ok(&MatcherScalar::Text { text: "Any".to_string(), resolved: None }),
        MonitorInputSourceMatcher::Any
    );
    assert_eq!(
        ok(&MatcherScalar::Text { text: "Hdmi1".to_string(), resolved: Some(17) }),
        MonitorInputSourceMatcher::Input(17)
    );
    assert_eq!(err(&MatcherScalar::UnsignedNumber(256)), MatcherParseError::CodeOutOfRange);
    assert_eq!(err(&MatcherScalar::SignedNumber(-3)), MatcherParseError::WrongType);
    assert_eq!(err(&MatcherScalar::RealNumber), MatcherParseError::WrongType);
    assert_eq!(
        err(&MatcherScalar::Text { text: "NoSuchInput".to_string(), resolved: None }),
        MatcherParseError::UnknownName
    );
    assert_eq!(err(&MatcherScalar::Other), MatcherParseError::WrongType);
}

#[test]
fn readings_resolve_by_monitor_name() {
    let mut readings = InputReadings::new();
    readings.push("eDP-1".to_string(), 15);
    readings.push("DP-1".to_string(), 17);
    assert_eq!(readings.get(&"DP-1".to_string()), Some(17));
    assert_eq!(readings.get(&"HDMI-A-1".to_string()), None);
}

#[test]
fn preferred_mode_falls_back_to_the_first() {
    let with_flag = output(
        1,
        "eDP-1",
        "BOE",
        None,
        vec![
            mode(10, 1280, 720, 60000, false),
            mode(11, 1920, 1080, 60000, true),
        ],
    );
    assert_eq!(with_flag.preffered_mode().mode, 11);
    let without_flag = output(
        1,
        "eDP-1",
        "BOE",
        None,
        vec![
            mode(10, 1280, 720, 60000, false),
            mode(11, 1920, 1080, 60000, false),
        ],
    );
    assert_eq!(without_flag.preffered_mode().mode, 10);
}

#[test]
fn biggest_mode_prefers_width_then_lower_height() {
    let out = output(
        1,
        "eDP-1",
        "BOE",
        None,
        vec![
            mode(10, 1920, 1200, 60000, false),
            mode(11, 1920, 1080, 60000, false),
            mode(12, 1280, 720, 60000, false),
        ],
    );
    assert_eq!(out.biggest_mode().mode, 11);
}

#[test]
fn snapshot_lookup_insert_replace_and_remove() {
    let mut snap = Snapshot::new();
    snap.insert(output(1, "eDP-1", "BOE", None, vec![mode(10, 1920, 1080, 60000, true)]));
    snap.insert(output(2, "DP-1", "Dell", None, vec![mode(20, 2560, 1440, 144000, true)]));
    assert_eq!(snap.len(), 2);
    assert_eq!(snap.get(1).unwrap().name, "eDP-1");
    // replacing under the same key keeps one record
    snap.insert(output(1, "eDP-1", "AUO", None, vec![mode(10, 1920, 1080, 60000, true)]));
    assert_eq!(snap.len(), 2);
    assert_eq!(snap.get(1).unwrap().make, "AUO");
    snap.remove_key(1);
    assert_eq!(snap.len(), 1);
    assert!(snap.get(1).is_none());
}

#[test]
fn profiles_are_found_by_name() {
    let config = AppConfiguration {
        hyprland_config_file: String::new(),
        profiles: vec![
            ("docked".to_string(), two_screen_profile()),
            ("mobile".to_string(), ScreensProfile { screens: Vec::new(), scripts: Vec::new() }),
        ],
    };
    assert_eq!(config.profile_by_name(&"mobile".to_string()).unwrap().screens.len(), 0);
    assert!(config.profile_by_name(&"absent".to_string()).is_none());
}

#[test]
fn default_configuration_is_empty() {
    let config = AppConfiguration::default();
    assert_eq!(config.profiles.len(), 0);
    assert_eq!(config.hyprland_config_file, "~/.config/hypr/display.conf");
    let state = DaemonState::default();
    assert_eq!(state.head_state.len(), 0);
    assert!(state.current_profile.is_none());
}

#[test]
fn chained_placements_accumulate_offsets() {
    let snap = Snapshot {
        outputs: vec![
            output(1, "eDP-1", "BOE", None, vec![mode(10, 1920, 1080, 60000, true)]),
            output(2, "DP-1", "Dell", None, vec![mode(20, 2560, 1440, 144000, true)]),
            output(3, "HDMI-A-1", "Acer", None, vec![mode(30, 1280, 720, 60000, true)]),
        ],
    };
    let profile = ScreensProfile {
        screens: vec![
            screen("eDP-1", ScreenPositionRelative::Root, true),
            screen("DP-1", ScreenPositionRelative::Under("eDP-1".to_string()), true),
            screen("HDMI-A-1", ScreenPositionRelative::Right("DP-1".to_string()), true),
        ],
        scripts: Vec::new(),
    };
    let plan = profile.apply(&snap).expect("layout resolves");
    let a = monitor_of(&plan, "eDP-1");
    let b = monitor_of(&plan, "DP-1");
    let c = monitor_of(&plan, "HDMI-A-1");
    assert_eq!((a.pos_x, a.pos_y), (0, 0));
    assert_eq!((b.pos_x, b.pos_y), (0, 1080));
    assert_eq!((c.pos_x, c.pos_y), (2560, 1080));
}

#[test]
fn a_later_duplicate_identifier_wins() {
    let snap = laptop_and_external();
    let mut first = screen("eDP-1", ScreenPositionRelative::Root, true);
    first.scale_millis = 1000;
    let mut second = screen("eDP-1", ScreenPositionRelative::Root, true);
    second.scale_millis = 1500;
    let profile = ScreensProfile {
        screens: vec![first, second, screen("DP-1", ScreenPositionRelative::Root, true)],
        scripts: Vec::new(),
    };
    let plan = profile.apply(&snap).expect("layout resolves");
    // one entry per identifier, and the later duplicate's settings stand
    assert_eq!(plan.monitors.len(), 2);
    assert_eq!(monitor_of(&plan, "eDP-1").scale_millis, 1500);
}

#[test]
fn a_screen_naming_itself_as_parent_is_a_cycle() {
    let profile = ScreensProfile {
        screens: vec![screen("eDP-1", ScreenPositionRelative::Right("eDP-1".to_string()), true)],
        scripts: Vec::new(),
    };
    assert_eq!(
        profile.apply(&laptop_and_external()).unwrap_err(),
        LayoutError::CyclicPlacement
    );
}

#[test]
fn applying_to_an_empty_snapshot_yields_an_empty_plan() {
    let snap = Snapshot { outputs: Vec::new() };
    let plan = two_screen_profile().apply(&snap).expect("an empty layout resolves");
    assert!(plan.monitors.is_empty());
    assert!(plan.workspace_moves.is_empty());
    assert!(plan.input_switches.is_empty());
}

#[test]
fn mirrors_can_chain_through_a_parent() {
    let snap = Snapshot {
        outputs: vec![
            output(1, "eDP-1", "BOE", None, vec![mode(10, 1920, 1080, 60000, true)]),
            output(2, "DP-1", "Dell", None, vec![mode(20, 2560, 1440, 144000, true)]),
            output(3, "HDMI-A-1", "Acer", None, vec![mode(30, 1280, 720, 60000, true)]),
        ],
    };
    let profile = ScreensProfile {
        screens: vec![
            screen("eDP-1", ScreenPositionRelative::Root, true),
            screen("DP-1", ScreenPositionRelative::Mirror("eDP-1".to_string()), true),
            screen("HDMI-A-1", ScreenPositionRelative::Mirror("DP-1".to_string()), true),
        ],
        scripts: Vec::new(),
    };
    let plan = profile.apply(&snap).expect("layout resolves");
    let a = monitor_of(&plan, "eDP-1");
    let b = monitor_of(&plan, "DP-1");
    let c = monitor_of(&plan, "HDMI-A-1");
    assert_eq!((b.pos_x, b.pos_y), (a.pos_x, a.pos_y));
    assert_eq!((c.pos_x, c.pos_y), (a.pos_x, a.pos_y));
}
