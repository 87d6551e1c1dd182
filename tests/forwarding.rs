use mouse_forward::dispatch::{plan_deliveries, Delivery, SurfaceGeometry, SurfaceProbe, FORWARDED_KEY_STATE};
use mouse_forward::engine::{effective_forwarding, ForwardingEngine, ForwardingError, HookAction, HookOutcome};
use mouse_forward::event::{decode_hook_event, is_forwardable, HOOK_PAYLOAD_LEN, MOUSE_MOVE_MESSAGE};
use mouse_forward::geometry::{pack_coords, ClientRect, Point};
use mouse_forward::handle::{HookHandle, SurfaceHandle};
use mouse_forward::registry::ForwardingRegistry;

fn surface(raw: isize) -> SurfaceHandle {
    SurfaceHandle { raw }
}

fn rect(left: i32, top: i32, right: i32, bottom: i32) -> ClientRect {
    ClientRect { left, top, right, bottom }
}

fn probe(raw: isize, r: ClientRect, x: i32, y: i32) -> SurfaceProbe {
    SurfaceProbe { surface: surface(raw), geometry: Some(SurfaceGeometry { rect: r, point: Point { x, y } }) }
}

fn dead(raw: isize) -> SurfaceProbe {
    SurfaceProbe { surface: surface(raw), geometry: None }
}

/// Runs one request through the engine as a caller would, with the hook
/// calls answered by `install` and `uninstall`.
fn request(
    engine: &mut ForwardingEngine,
    s: SurfaceHandle,
    enabled: bool,
    install: HookOutcome,
    uninstall: HookOutcome,
) -> Result<(), ForwardingError> {
    let outcome = match engine.required_action(s, enabled) {
        HookAction::Install => install,
        HookAction::Uninstall(_) => uninstall,
        HookAction::Keep => HookOutcome::NotAttempted,
    };
    engine.complete_request(s, enabled, outcome)
}

fn check_hook_matches(engine: &ForwardingEngine) {
    assert_eq!(engine.installed_hook().is_some(), !engine.is_empty());
}

#[test]
fn hit_test_bounds() {
    let r = rect(0, 0, 100, 100);
    assert!(r.contains(Point { x: 50, y: 50 }));
    assert!(!r.contains(Point { x: 100, y: 50 }));
    assert!(!r.contains(Point { x: -1, y: 50 }));
    assert!(r.contains(Point { x: 0, y: 0 }));
    assert!(!r.contains(Point { x: 50, y: 100 }));
    assert!(!r.contains(Point { x: 50, y: -1 }));
    assert!(r.contains(Point { x: 99, y: 99 }));
}

#[test]
fn empty_and_inverted_rects_contain_nothing() {
    assert!(!rect(10, 10, 10, 20).contains(Point { x: 10, y: 15 }));
    assert!(!rect(10, 10, 20, 10).contains(Point { x: 15, y: 10 }));
    assert!(!rect(20, 20, 10, 10).contains(Point { x: 15, y: 15 }));
}

#[test]
fn packing_puts_x_low_and_y_high() {
    let l = pack_coords(12, 34);
    assert_eq!(l & 0xffff, 12);
    assert_eq!(l >> 16, 34);
    assert_eq!(l, 12 + 34 * 65536);
}

#[test]
fn packing_truncates_to_sixteen_bits() {
    assert_eq!(pack_coords(-1, 0), 0x0000_ffff);
    assert_eq!(pack_coords(0, -1), 0xffff_0000);
    assert_eq!(pack_coords(0x1_2345, 0x2_0001), 0x0001_2345);
    assert_eq!(pack_coords(-2, -3), 0xfffd_fffe);
}

#[test]
fn overlapping_surfaces_both_receive_the_move() {
    let probes = vec![probe(1, rect(0, 0, 100, 100), 50, 60), probe(2, rect(0, 0, 200, 200), 30, 40)];
    let out = plan_deliveries(&probes);
    assert_eq!(
        out,
        vec![
            Delivery { surface: surface(1), key_state: FORWARDED_KEY_STATE, coords: pack_coords(50, 60) },
            Delivery { surface: surface(2), key_state: FORWARDED_KEY_STATE, coords: pack_coords(30, 40) },
        ]
    );
}

#[test]
fn surface_missed_by_the_point_receives_nothing() {
    let probes = vec![probe(1, rect(0, 0, 100, 100), 100, 50), probe(2, rect(0, 0, 100, 100), 99, 0)];
    let out = plan_deliveries(&probes);
    assert_eq!(out.len(), 1);
    assert_eq!(out[0].surface, surface(2));
    assert_eq!(out[0].coords, 99);
    assert_eq!(out[0].key_state, 1);
}

#[test]
fn dead_surface_is_skipped_without_affecting_others() {
    let with_dead = vec![probe(1, rect(0, 0, 100, 100), 5, 6), dead(7), probe(2, rect(0, 0, 50, 50), 7, 8)];
    let without = vec![probe(1, rect(0, 0, 100, 100), 5, 6), probe(2, rect(0, 0, 50, 50), 7, 8)];
    let a = plan_deliveries(&with_dead);
    let b = plan_deliveries(&without);
    assert_eq!(a, b);
    assert_eq!(a.len(), 2);
    assert!(a.iter().all(|d| d.surface != surface(7)));
}

#[test]
fn no_probes_no_deliveries() {
    assert!(plan_deliveries(&Vec::new()).is_empty());
    assert!(plan_deliveries(&vec![dead(1), dead(2)]).is_empty());
}

#[test]
fn forwardable_events() {
    assert!(is_forwardable(0, MOUSE_MOVE_MESSAGE));
    assert!(!is_forwardable(-1, MOUSE_MOVE_MESSAGE));
    assert!(!is_forwardable(0, 0x0201));
    assert_eq!(MOUSE_MOVE_MESSAGE, 0x0200);
}

#[test]
fn decode_reads_little_endian_fields() {
    let mut bytes: Vec<u8> = Vec::new();
    bytes.extend_from_slice(&(-5i32).to_le_bytes());
    bytes.extend_from_slice(&1234i32.to_le_bytes());
    bytes.extend_from_slice(&0x0078_0000u32.to_le_bytes());
    bytes.extend_from_slice(&1u32.to_le_bytes());
    bytes.extend_from_slice(&0xdead_beefu32.to_le_bytes());
    bytes.extend_from_slice(&[0u8; 12]);
    let e = decode_hook_event(&bytes).unwrap();
    assert_eq!(e.point, Point { x: -5, y: 1234 });
    assert_eq!(e.mouse_data, 0x0078_0000);
    assert_eq!(e.flags, 1);
    assert_eq!(e.time, 0xdead_beef);
}

#[test]
fn decode_extremes() {
    let mut bytes: Vec<u8> = Vec::new();
    bytes.extend_from_slice(&i32::MIN.to_le_bytes());
    bytes.extend_from_slice(&i32::MAX.to_le_bytes());
    bytes.extend_from_slice(&[0xff; 12]);
    assert_eq!(bytes.len(), HOOK_PAYLOAD_LEN);
    let e = decode_hook_event(&bytes).unwrap();
    assert_eq!(e.point, Point { x: i32::MIN, y: i32::MAX });
    assert_eq!(e.time, u32::MAX);
}

#[test]
fn decode_rejects_short_payload() {
    assert_eq!(decode_hook_event(&[]), None);
    assert_eq!(decode_hook_event(&[0u8; 19]), None);
    assert!(decode_hook_event(&[0u8; 20]).is_some());
}

#[test]
fn registry_is_a_set() {
    let mut r = ForwardingRegistry::new();
    assert!(r.is_empty());
    r.subscribe(surface(3));
    r.subscribe(surface(3));
    r.subscribe(surface(4));
    assert_eq!(r.snapshot(), vec![surface(3), surface(4)]);
    assert!(r.holds_only(surface(3)) == false);
    r.unsubscribe(surface(9));
    r.unsubscribe(surface(3));
    assert!(r.contains(surface(4)));
    assert!(!r.contains(surface(3)));
    assert!(r.holds_only(surface(4)));
    r.unsubscribe(surface(4));
    assert!(r.is_empty());
    assert!(r.snapshot().is_empty());
}

#[test]
fn hook_installed_exactly_while_subscribed() {
    let mut e = ForwardingEngine::new();
    let hook = HookOutcome::Installed(HookHandle { raw: 77 });
    check_hook_matches(&e);
    let steps: Vec<(isize, bool)> = vec![(1, true), (2, true), (1, true), (1, false), (3, false), (2, false), (2, false), (4, true), (4, false)];
    for (raw, enabled) in steps {
        assert_eq!(request(&mut e, surface(raw), enabled, hook, HookOutcome::Uninstalled), Ok(()));
        check_hook_matches(&e);
    }
    assert!(e.is_empty());
    assert_eq!(e.installed_hook(), None);
}

#[test]
fn first_subscription_installs_and_last_removes() {
    let mut e = ForwardingEngine::new();
    assert_eq!(e.required_action(surface(1), true), HookAction::Install);
    assert_eq!(e.complete_request(surface(1), true, HookOutcome::Installed(HookHandle { raw: 5 })), Ok(()));
    assert_eq!(e.installed_hook(), Some(HookHandle { raw: 5 }));
    assert_eq!(e.required_action(surface(2), true), HookAction::Keep);
    assert_eq!(e.complete_request(surface(2), true, HookOutcome::NotAttempted), Ok(()));
    assert_eq!(e.required_action(surface(1), false), HookAction::Keep);
    assert_eq!(e.complete_request(surface(1), false, HookOutcome::NotAttempted), Ok(()));
    assert_eq!(e.required_action(surface(2), false), HookAction::Uninstall(HookHandle { raw: 5 }));
    assert_eq!(e.complete_request(surface(2), false, HookOutcome::Uninstalled), Ok(()));
    assert_eq!(e.installed_hook(), None);
    assert!(e.is_empty());
}

#[test]
fn repeated_requests_change_nothing() {
    let mut e = ForwardingEngine::new();
    let h = HookHandle { raw: 9 };
    assert_eq!(request(&mut e, surface(1), true, HookOutcome::Installed(h), HookOutcome::Uninstalled), Ok(()));
    assert_eq!(e.required_action(surface(1), true), HookAction::Keep);
    assert_eq!(e.complete_request(surface(1), true, HookOutcome::NotAttempted), Ok(()));
    assert_eq!(e.snapshot(), vec![surface(1)]);
    assert_eq!(e.installed_hook(), Some(h));
    assert_eq!(e.required_action(surface(2), false), HookAction::Keep);
    assert_eq!(e.complete_request(surface(2), false, HookOutcome::NotAttempted), Ok(()));
    assert_eq!(e.snapshot(), vec![surface(1)]);
    assert_eq!(e.installed_hook(), Some(h));
}

#[test]
fn unsubscribing_from_an_empty_engine_changes_nothing() {
    let mut e = ForwardingEngine::new();
    assert_eq!(e.required_action(surface(1), false), HookAction::Keep);
    assert_eq!(e.complete_request(surface(1), false, HookOutcome::NotAttempted), Ok(()));
    assert!(e.is_empty());
    assert_eq!(e.installed_hook(), None);
}

#[test]
fn ignore_off_forces_forwarding_off() {
    assert!(!effective_forwarding(false, true));
    assert!(!effective_forwarding(false, false));
    assert!(!effective_forwarding(true, false));
    assert!(effective_forwarding(true, true));
    let mut e = ForwardingEngine::new();
    let enabled = effective_forwarding(false, true);
    assert_eq!(e.required_action(surface(1), enabled), HookAction::Keep);
    assert_eq!(request(&mut e, surface(1), enabled, HookOutcome::Installed(HookHandle { raw: 1 }), HookOutcome::Uninstalled), Ok(()));
    assert!(e.is_empty());
    assert!(!e.is_forwarding(surface(1)));
    assert_eq!(e.installed_hook(), None);
}

#[test]
fn failed_install_is_reported_and_changes_nothing() {
    let mut e = ForwardingEngine::new();
    assert_eq!(
        e.complete_request(surface(1), true, HookOutcome::InstallFailed),
        Err(ForwardingError::HookInstallFailed)
    );
    assert!(e.is_empty());
    assert_eq!(e.installed_hook(), None);
}

#[test]
fn failed_uninstall_is_reported_and_changes_nothing() {
    let mut e = ForwardingEngine::new();
    let h = HookHandle { raw: 3 };
    assert_eq!(e.complete_request(surface(1), true, HookOutcome::Installed(h)), Ok(()));
    assert_eq!(
        e.complete_request(surface(1), false, HookOutcome::UninstallFailed),
        Err(ForwardingError::HookUninstallFailed)
    );
    assert!(e.is_forwarding(surface(1)));
    assert_eq!(e.installed_hook(), Some(h));
}
