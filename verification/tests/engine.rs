//! Tests of the framing state engine: the command sequences it emits and
//! the registry states it moves through, on concrete windows.

use reparent_wm::manager::EngineError;
use reparent_wm::manager::FrameOutcome;
use reparent_wm::manager::WindowManager;
use reparent_wm::protocol::Command;
use reparent_wm::protocol::ConfigureRequest;
use reparent_wm::protocol::Event;
use reparent_wm::protocol::ExistingWindow;
use reparent_wm::protocol::Geometry;
use reparent_wm::protocol::KeyMap;
use reparent_wm::protocol::MapState;
use reparent_wm::protocol::WindowAttributes;

const ROOT: u32 = 1;

fn test_keys() -> KeyMap {
    KeyMap { close_keycode: 70, switch_keycode: 23 }
}

fn viewable() -> WindowAttributes {
    WindowAttributes { override_redirect: false, map_state: MapState::Viewable }
}

fn geometry() -> Geometry {
    Geometry { x: 10, y: 20, width: 300, height: 400 }
}

fn expected_frame_commands(window: u32, frame: u32, geo: Geometry) -> Vec<Command> {
    vec![
        Command::CreateWindow {
            window: frame,
            parent: ROOT,
            x: geo.x,
            y: geo.y,
            width: geo.width,
            height: geo.height,
            border_width: 4,
        },
        Command::SetDecoration {
            window: frame,
            border_pixel: 0xff0000,
            background_pixel: 0x0000ff,
        },
        Command::SelectSubstructureEvents { window: frame },
        Command::AddToSaveSet { window },
        Command::Reparent { window, new_parent: frame, x: 0, y: 0 },
        Command::MapWindow { window: frame },
        Command::GrabButton { window, button: 1, modifiers: 8 },
        Command::GrabButton { window, button: 3, modifiers: 8 },
        Command::GrabKey { window, keycode: 70, modifiers: 8 },
        Command::GrabKey { window, keycode: 23, modifiers: 8 },
    ]
}

fn expected_unframe_commands(window: u32, frame: u32) -> Vec<Command> {
    vec![
        Command::UnmapWindow { window: frame },
        Command::Reparent { window, new_parent: ROOT, x: 0, y: 0 },
        Command::RemoveFromSaveSet { window },
        Command::DestroyWindow { window: frame },
    ]
}

#[test]
fn frame_emits_exact_sequence() {
    let mut wm = WindowManager::new(ROOT, test_keys());
    let r = wm.frame_window(42, false, None, 7, geometry());
    match r {
        Ok(FrameOutcome::Framed(cmds)) => {
            assert_eq!(cmds, expected_frame_commands(42, 7, geometry()));
        },
        _ => panic!("a fresh window must be framed"),
    }
    assert!(wm.is_managed(42));
    assert_eq!(wm.frame_of(42), Some(7));
    assert_eq!(wm.managed_count(), 1);
}

#[test]
fn double_frame_is_rejected_not_overwritten() {
    let mut wm = WindowManager::new(ROOT, test_keys());
    let first = wm.frame_window(42, false, None, 7, geometry());
    assert!(matches!(first, Ok(FrameOutcome::Framed(_))));
    let second = wm.frame_window(42, false, None, 9, geometry());
    assert_eq!(second.err(), Some(EngineError::AlreadyFramed));
    // the original entry survives untouched
    assert_eq!(wm.frame_of(42), Some(7));
    assert_eq!(wm.managed_count(), 1);
}

#[test]
fn round_trip_restores_window_and_registry() {
    let mut wm = WindowManager::new(ROOT, test_keys());
    match wm.frame_window(42, false, None, 7, geometry()) {
        Ok(FrameOutcome::Framed(_)) => {},
        _ => panic!("framing must succeed"),
    }
    let cmds = wm.unframe_window(42);
    assert_eq!(cmds, expected_unframe_commands(42, 7));
    assert!(!wm.is_managed(42));
    assert_eq!(wm.managed_count(), 0);
    // the pair is repeatable: no leaked frame entry, no growing registry
    match wm.frame_window(42, false, None, 8, geometry()) {
        Ok(FrameOutcome::Framed(_)) => {},
        _ => panic!("reframing must succeed"),
    }
    let cmds2 = wm.unframe_window(42);
    assert_eq!(cmds2, expected_unframe_commands(42, 8));
    assert_eq!(wm.managed_count(), 0);
}

#[test]
fn startup_sweep_filters_override_redirect_and_unmapped() {
    let mut wm = WindowManager::new(ROOT, test_keys());
    let existing = vec![
        ExistingWindow {
            window: 10,
            attrs: WindowAttributes { override_redirect: true, map_state: MapState::Viewable },
            geometry: geometry(),
            frame: 100,
        },
        ExistingWindow {
            window: 11,
            attrs: WindowAttributes { override_redirect: false, map_state: MapState::Unmapped },
            geometry: geometry(),
            frame: 101,
        },
        ExistingWindow { window: 12, attrs: viewable(), geometry: geometry(), frame: 102 },
    ];
    let cmds = wm.discover_and_frame_existing(&existing);
    assert!(!wm.is_managed(10));
    assert!(!wm.is_managed(11));
    assert_eq!(wm.frame_of(12), Some(102));
    assert_eq!(wm.managed_count(), 1);
    // only the viewable, non-override-redirect window produced requests
    assert_eq!(cmds, expected_frame_commands(12, 102, geometry()));
}

#[test]
fn startup_sweep_of_nothing_does_nothing() {
    let mut wm = WindowManager::new(ROOT, test_keys());
    let cmds = wm.discover_and_frame_existing(&Vec::new());
    assert!(cmds.is_empty());
    assert_eq!(wm.managed_count(), 0);
}

#[test]
fn configure_request_for_unregistered_targets_only_the_window() {
    let wm = WindowManager::new(ROOT, test_keys());
    let req = ConfigureRequest {
        window: 42,
        x: 1,
        y: 2,
        width: 30,
        height: 40,
        border_width: 5,
        sibling: 6,
        stack_mode: 0,
    };
    let cmds = wm.on_configure_request(&req);
    assert_eq!(
        cmds,
        vec![Command::ConfigureWindow {
            window: 42,
            x: 1,
            y: 2,
            width: 30,
            height: 40,
            border_width: 5,
            sibling: 6,
            stack_mode: 0,
        }]
    );
    assert_eq!(wm.managed_count(), 0);
}

#[test]
fn configure_request_for_registered_reconfigures_frame_too() {
    let mut wm = WindowManager::new(ROOT, test_keys());
    match wm.frame_window(42, false, None, 7, geometry()) {
        Ok(FrameOutcome::Framed(_)) => {},
        _ => panic!("framing must succeed"),
    }
    let req = ConfigureRequest {
        window: 42,
        x: 1,
        y: 2,
        width: 30,
        height: 40,
        border_width: 5,
        sibling: 6,
        stack_mode: 0,
    };
    let cmds = wm.on_configure_request(&req);
    assert_eq!(cmds.len(), 2);
    // the frame first, with the client's raw requested geometry, then the client
    assert_eq!(
        cmds[0],
        Command::ConfigureWindow {
            window: 7,
            x: 1,
            y: 2,
            width: 30,
            height: 40,
            border_width: 5,
            sibling: 6,
            stack_mode: 0,
        }
    );
    assert_eq!(
        cmds[1],
        Command::ConfigureWindow {
            window: 42,
            x: 1,
            y: 2,
            width: 30,
            height: 40,
            border_width: 5,
            sibling: 6,
            stack_mode: 0,
        }
    );
    // the registry did not change
    assert_eq!(wm.frame_of(42), Some(7));
}

#[test]
fn unmap_notify_from_root_never_unframes() {
    let mut wm = WindowManager::new(ROOT, test_keys());
    match wm.frame_window(42, false, None, 7, geometry()) {
        Ok(FrameOutcome::Framed(_)) => {},
        _ => panic!("framing must succeed"),
    }
    let cmds = wm.on_unmap_notify(ROOT, 42);
    assert!(cmds.is_empty());
    assert_eq!(wm.frame_of(42), Some(7));
}

#[test]
fn unmap_notify_for_unregistered_is_ignored() {
    let mut wm = WindowManager::new(ROOT, test_keys());
    let cmds = wm.on_unmap_notify(42, 42);
    assert!(cmds.is_empty());
    assert_eq!(wm.managed_count(), 0);
}

#[test]
fn unmap_notify_for_registered_unframes() {
    let mut wm = WindowManager::new(ROOT, test_keys());
    match wm.frame_window(42, false, None, 7, geometry()) {
        Ok(FrameOutcome::Framed(_)) => {},
        _ => panic!("framing must succeed"),
    }
    let cmds = wm.on_unmap_notify(42, 42);
    assert_eq!(cmds, expected_unframe_commands(42, 7));
    assert!(!wm.is_managed(42));
}

#[test]
fn map_request_frames_then_maps_the_client() {
    let mut wm = WindowManager::new(ROOT, test_keys());
    let cmds = match wm.on_map_request(42, 7, geometry()) {
        Ok(cmds) => cmds,
        Err(_) => panic!("a fresh window's map request must succeed"),
    };
    let mut expected = expected_frame_commands(42, 7, geometry());
    expected.push(Command::MapWindow { window: 42 });
    assert_eq!(cmds, expected);
    assert_eq!(wm.frame_of(42), Some(7));
}

#[test]
fn dispatcher_routes_and_discards() {
    let mut wm = WindowManager::new(ROOT, test_keys());
    let cmds = wm.handle_event(&Event::Other).unwrap();
    assert!(cmds.is_empty());
    let cmds = wm.handle_event(&Event::ButtonPress).unwrap();
    assert!(cmds.is_empty());
    let cmds = wm
        .handle_event(&Event::MapRequest { window: 42, frame: 7, geometry: geometry() })
        .unwrap();
    assert_eq!(cmds.len(), 11);
    assert_eq!(wm.frame_of(42), Some(7));
    let cmds = wm.handle_event(&Event::UnmapNotify { event_window: 42, window: 42 }).unwrap();
    assert_eq!(cmds, expected_unframe_commands(42, 7));
    assert!(!wm.is_managed(42));
}

#[test]
fn scenario_sweep_map_unmap() {
    // one pre-existing viewable window A, swept at startup
    let mut wm = WindowManager::new(ROOT, test_keys());
    let a: u32 = 50;
    let f1: u32 = 100;
    let existing =
        vec![ExistingWindow { window: a, attrs: viewable(), geometry: geometry(), frame: f1 }];
    let sweep_cmds = wm.discover_and_frame_existing(&existing);
    assert_eq!(wm.managed_count(), 1);
    assert_eq!(wm.frame_of(a), Some(f1));
    assert!(sweep_cmds.contains(&Command::MapWindow { window: f1 }));
    assert!(sweep_cmds.contains(&Command::Reparent { window: a, new_parent: f1, x: 0, y: 0 }));

    // a live map request for a new window B
    let b: u32 = 60;
    let f2: u32 = 101;
    let map_cmds = wm.on_map_request(b, f2, geometry()).unwrap();
    assert_eq!(wm.managed_count(), 2);
    assert_eq!(wm.frame_of(b), Some(f2));
    assert_eq!(map_cmds.last(), Some(&Command::MapWindow { window: b }));

    // an unmap notification for B tears down B's frame, and only B's
    let unmap_cmds = wm.on_unmap_notify(b, b);
    assert_eq!(wm.managed_count(), 1);
    assert_eq!(wm.frame_of(a), Some(f1));
    assert!(!wm.is_managed(b));
    assert!(unmap_cmds.contains(&Command::DestroyWindow { window: f2 }));
    assert!(!unmap_cmds.contains(&Command::DestroyWindow { window: f1 }));
}
