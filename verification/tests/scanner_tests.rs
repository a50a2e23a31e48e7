use ruby_chat::scanner::{detect, DetectableGame, GameExecutable, LoopAction, ScannerState};

fn game(id: &str, name: &str, exes: &[(&str, &str)]) -> DetectableGame {
    DetectableGame {
        id: id.to_string(),
        name: name.to_string(),
        executables: exes
            .iter()
            .map(|(os, exe)| GameExecutable { os: os.to_string(), name: exe.to_string() })
            .collect(),
    }
}

fn procs(names: &[&str]) -> Vec<String> {
    names.iter().map(|n| n.to_string()).collect()
}

#[test]
fn initial_state_is_disabled_and_empty() {
    let s = ScannerState::new();
    assert!(s.watch_list.is_empty());
    assert!(s.current_game.is_none());
    assert!(!s.is_enabled);
    assert!(!s.wake_pending);
}

#[test]
fn enabling_from_disabled_wakes_once() {
    let mut s = ScannerState::new();
    s.set_scanner_enabled(true);
    assert!(s.is_enabled);
    assert!(s.wake_pending);
}

#[test]
fn set_enabled_with_active_value_never_wakes() {
    let mut s = ScannerState::new();
    s.set_scanner_enabled(true);
    assert!(s.take_wake());
    s.set_scanner_enabled(true);
    assert!(!s.wake_pending);
    s.set_scanner_enabled(false);
    assert!(s.take_wake());
    s.set_scanner_enabled(false);
    assert!(!s.wake_pending);
}

#[test]
fn wake_signals_coalesce_into_one() {
    let mut s = ScannerState::new();
    s.signal_wake();
    s.signal_wake();
    s.signal_wake();
    assert!(s.take_wake());
    assert!(!s.take_wake());
}

#[test]
fn next_action_scans_only_when_enabled() {
    let mut s = ScannerState::new();
    assert_eq!(s.next_action(), LoopAction::WaitForWake);
    s.set_scanner_enabled(true);
    assert_eq!(s.next_action(), LoopAction::Scan);
}

#[test]
fn get_enabled_is_a_plain_read() {
    let mut s = ScannerState::new();
    assert!(!s.get_enabled());
    s.set_scanner_enabled(true);
    assert!(s.get_enabled());
    assert!(s.wake_pending);
}

#[test]
fn disabling_mid_wait_leads_to_disabled_wait() {
    let mut s = ScannerState::new();
    s.set_scanner_enabled(true);
    s.take_wake();
    assert_eq!(s.next_action(), LoopAction::Scan);
    s.set_scanner_enabled(false);
    assert_eq!(s.next_action(), LoopAction::WaitForWake);
}

#[test]
fn detect_nothing_on_empty_watch_list() {
    let watch: Vec<DetectableGame> = Vec::new();
    let r = detect(&watch, &procs(&["init", "bash"]));
    assert!(r.is_none());
}

#[test]
fn detect_requires_exact_name() {
    let watch = vec![game("g1", "Hollow Knight", &[("windows", "hollow_knight.exe")])];
    let r = detect(&watch, &procs(&["hollow_knight.exe.old", "xhollow_knight.exe"]));
    assert!(r.is_none());
    let r = detect(&watch, &procs(&["hollow_knight.exe"]));
    let (name, exe) = r.unwrap();
    assert_eq!(name, "Hollow Knight");
    assert_eq!(exe, "hollow_knight.exe");
}

#[test]
fn detect_first_target_in_list_order_wins() {
    let watch = vec![
        game("g1", "Hollow Knight", &[("windows", "hollow_knight.exe")]),
        game("g2", "Celeste", &[("windows", "Celeste.exe")]),
    ];
    let both = procs(&["Celeste.exe", "hollow_knight.exe"]);
    let (name, _) = detect(&watch, &both).unwrap();
    assert_eq!(name, "Hollow Knight");

    let reversed = vec![
        game("g2", "Celeste", &[("windows", "Celeste.exe")]),
        game("g1", "Hollow Knight", &[("windows", "hollow_knight.exe")]),
    ];
    let (name, _) = detect(&reversed, &both).unwrap();
    assert_eq!(name, "Celeste");
}

#[test]
fn detect_first_executable_in_descriptor_order_wins() {
    let watch = vec![game(
        "g1",
        "Hollow Knight",
        &[("windows", "hollow_knight.exe"), ("linux", "hollow_knight")],
    )];
    let both = procs(&["hollow_knight", "hollow_knight.exe"]);
    let (_, exe) = detect(&watch, &both).unwrap();
    assert_eq!(exe, "hollow_knight.exe");
}

#[test]
fn scenario_hollow_knight_appears() {
    let mut s = ScannerState::new();
    s.update_watch_list(vec![game(
        "g1662",
        "Hollow Knight",
        &[("windows", "hollow_knight.exe")],
    )]);

    let ev = s.scan_cycle(&procs(&["explorer.exe", "steam.exe"]));
    assert!(ev.is_none());
    assert!(s.current_game.is_none());

    let ev = s.scan_cycle(&procs(&["explorer.exe", "hollow_knight.exe", "steam.exe"]));
    let ev = ev.unwrap();
    assert_eq!(ev.name, "Hollow Knight");
    assert!(ev.is_running);
    assert_eq!(s.current_game.as_deref(), Some("Hollow Knight"));
}

#[test]
fn scenario_switch_emits_single_start_for_new_game() {
    let mut s = ScannerState::new();
    s.update_watch_list(vec![
        game("g1662", "Hollow Knight", &[("windows", "hollow_knight.exe")]),
        game("g310", "Celeste", &[("windows", "Celeste.exe")]),
    ]);
    let ev = s.scan_cycle(&procs(&["hollow_knight.exe"]));
    assert_eq!(ev.unwrap().name, "Hollow Knight");

    let ev = s.scan_cycle(&procs(&["Celeste.exe"]));
    let ev = ev.unwrap();
    assert_eq!(ev.name, "Celeste");
    assert!(ev.is_running);
    assert_eq!(s.current_game.as_deref(), Some("Celeste"));
}

#[test]
fn scenario_cleared_watch_list_emits_stop() {
    let mut s = ScannerState::new();
    s.update_watch_list(vec![game(
        "g1662",
        "Hollow Knight",
        &[("windows", "hollow_knight.exe")],
    )]);
    let running = procs(&["hollow_knight.exe"]);
    s.scan_cycle(&running);
    assert_eq!(s.current_game.as_deref(), Some("Hollow Knight"));

    s.update_watch_list(Vec::new());
    let ev = s.scan_cycle(&running).unwrap();
    assert_eq!(ev.name, "Hollow Knight");
    assert!(!ev.is_running);
    assert!(s.current_game.is_none());
}

#[test]
fn stop_emitted_when_process_disappears() {
    let mut s = ScannerState::new();
    s.update_watch_list(vec![game(
        "g1662",
        "Hollow Knight",
        &[("windows", "hollow_knight.exe")],
    )]);
    s.scan_cycle(&procs(&["hollow_knight.exe"]));
    let ev = s.scan_cycle(&procs(&["explorer.exe"])).unwrap();
    assert_eq!(ev.name, "Hollow Knight");
    assert!(!ev.is_running);
}

#[test]
fn no_event_while_same_game_keeps_running() {
    let mut s = ScannerState::new();
    s.update_watch_list(vec![game(
        "g1662",
        "Hollow Knight",
        &[("windows", "hollow_knight.exe")],
    )]);
    s.scan_cycle(&procs(&["hollow_knight.exe"]));
    let ev = s.scan_cycle(&procs(&["hollow_knight.exe"]));
    assert!(ev.is_none());
    assert_eq!(s.current_game.as_deref(), Some("Hollow Knight"));
}

#[test]
fn at_most_one_event_with_many_running_targets() {
    let mut s = ScannerState::new();
    s.update_watch_list(vec![
        game("g1", "Alpha", &[("windows", "alpha.exe")]),
        game("g2", "Beta", &[("windows", "beta.exe")]),
        game("g3", "Gamma", &[("windows", "gamma.exe")]),
    ]);
    let ev = s.scan_cycle(&procs(&["alpha.exe", "beta.exe", "gamma.exe"]));
    let ev = ev.unwrap();
    assert_eq!(ev.name, "Alpha");
    assert!(ev.is_running);
    let more = s.scan_cycle(&procs(&["alpha.exe", "beta.exe", "gamma.exe"]));
    assert!(more.is_none());
}

#[test]
fn cycle_does_not_touch_flag_or_wake() {
    let mut s = ScannerState::new();
    s.set_scanner_enabled(true);
    s.update_watch_list(vec![game("g1", "Alpha", &[("windows", "alpha.exe")])]);
    s.scan_cycle(&procs(&["alpha.exe"]));
    assert!(s.is_enabled);
    assert!(s.wake_pending);
    assert_eq!(s.watch_list.len(), 1);
}

#[test]
fn scan_once_against_live_machine_finds_nothing_for_absent_name() {
    let mut s = ScannerState::new();
    s.update_watch_list(vec![game(
        "g0",
        "Nowhere",
        &[("linux", "zz_no_such_process_zz")],
    )]);
    let mut sys = sysinfo::System::new();
    let ev = s.scan_once(&mut sys);
    assert!(ev.is_none());
    assert!(s.current_game.is_none());
}
