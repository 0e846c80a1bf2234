use pin::autostart::{
    autostart_state, format_ini_autostart, parse_bool, parse_ini_autostart,
    parse_run_command_path, paths_equal, quote_exe_path, reconcile_action, run_state_of,
    run_value_unit_count, toggle_target, AutoStartState, ReconcileAction, RunState,
};

#[test]
fn parse_ini_true_variants() {
    assert!(parse_ini_autostart("AutoStart=true\n"));
    assert!(parse_ini_autostart("autostart=1"));
    assert!(parse_ini_autostart("AutoStart=yes"));
}

#[test]
fn parse_ini_false_or_missing() {
    assert!(!parse_ini_autostart("AutoStart=false\n"));
    assert!(!parse_ini_autostart(""));
    assert!(!parse_ini_autostart("# comment\n"));
}

#[test]
fn parse_ini_last_autostart_value_wins() {
    assert!(parse_ini_autostart("AutoStart=false\nAutoStart=true\n"));
    assert!(!parse_ini_autostart("AutoStart=true\nAutoStart=false\n"));
}

#[test]
fn format_ini_roundtrip() {
    assert_eq!(format_ini_autostart(true), "AutoStart=true\n");
    assert!(parse_ini_autostart(&format_ini_autostart(true)));
    assert!(!parse_ini_autostart(&format_ini_autostart(false)));
}

#[test]
fn reconcile_action_matrix() {
    assert_eq!(
        reconcile_action(true, RunState::Missing),
        ReconcileAction::EnableRegistry
    );
    assert_eq!(
        reconcile_action(true, RunState::Other),
        ReconcileAction::EnableRegistry
    );
    assert_eq!(
        reconcile_action(false, RunState::CurrentExe),
        ReconcileAction::DisableRegistry
    );
    assert_eq!(
        reconcile_action(true, RunState::CurrentExe),
        ReconcileAction::Noop
    );
    assert_eq!(reconcile_action(false, RunState::Missing), ReconcileAction::Noop);
    assert_eq!(reconcile_action(false, RunState::Other), ReconcileAction::Noop);
}

#[test]
fn quote_exe_path_wraps() {
    let p = r"C:\Program Files\Pin\pin.exe";
    assert_eq!(quote_exe_path(p), r#""C:\Program Files\Pin\pin.exe""#);
}

#[test]
fn parse_run_command_path_supports_quoted_path() {
    assert_eq!(
        parse_run_command_path(r#""C:\Program Files\Pin\pin.exe""#),
        Some(String::from(r"C:\Program Files\Pin\pin.exe"))
    );
}

#[test]
fn parse_run_command_path_supports_quoted_path_with_args() {
    assert_eq!(
        parse_run_command_path(r#""C:\Program Files\Pin\pin.exe" --minimized"#),
        Some(String::from(r"C:\Program Files\Pin\pin.exe"))
    );
}

#[test]
fn parse_run_command_path_supports_unquoted_exe_path() {
    assert_eq!(
        parse_run_command_path(r"C:\Tools\pin.exe --minimized"),
        Some(String::from(r"C:\Tools\pin.exe"))
    );
}

#[test]
fn parse_run_command_path_rejects_empty_or_unclosed_quote() {
    assert_eq!(parse_run_command_path(""), None);
    assert_eq!(parse_run_command_path(r#""C:\Tools\pin.exe"#), None);
}

#[test]
fn toggle_target_uses_desired_state() {
    assert!(!toggle_target(AutoStartState {
        desired: true,
        effective: false,
    }));
    assert!(toggle_target(AutoStartState {
        desired: false,
        effective: true,
    }));
}

#[test]
fn parse_ini_ignores_comments_spaces_and_case() {
    assert!(parse_ini_autostart("  aUtOsTaRt  =  ON  # enabled by hand\r\n"));
    assert!(parse_ini_autostart("[general]\nAutoStart=TRUE\r\nOther=0\n"));
    assert!(!parse_ini_autostart("# AutoStart=true\n"));
    assert!(!parse_ini_autostart("AutoStart\n"));
    assert!(!parse_ini_autostart("AutoStartx=true\n"));
    assert!(!parse_ini_autostart("AutoStart=truthy\n"));
    assert!(!parse_ini_autostart("AutoStart=true\nAutoStart=nope"));
    assert!(parse_ini_autostart("AutoStart=0\nAutoStart=1\n\n# trailing"));
}

#[test]
fn parse_bool_accepts_only_truthy_words() {
    for s in ["1", "true", "TRUE", "Yes", "on", "oN"] {
        assert!(parse_bool(s), "{s}");
    }
    for s in ["", "0", "false", "no", "off", " true", "yes ", "tru", "onn", "2"] {
        assert!(!parse_bool(s), "{s}");
    }
}

#[test]
fn format_ini_false_text() {
    assert_eq!(format_ini_autostart(false), "AutoStart=false\n");
}

#[test]
fn parse_run_command_path_edge_cases() {
    assert_eq!(parse_run_command_path("   "), None);
    assert_eq!(parse_run_command_path(r#""""#), None);
    assert_eq!(parse_run_command_path(r#"  "" --x"#), None);
    assert_eq!(
        parse_run_command_path(r"  C:\My Apps\Pin.EXE -a  "),
        Some(String::from(r"C:\My Apps\Pin.EXE"))
    );
    assert_eq!(
        parse_run_command_path(r"C:\tools\pin --flag"),
        Some(String::from(r"C:\tools\pin"))
    );
    assert_eq!(
        parse_run_command_path(r"C:\tools\pin"),
        Some(String::from(r"C:\tools\pin"))
    );
    assert_eq!(
        parse_run_command_path("  \"C:\\ä ö\\p.exe\"  "),
        Some(String::from("C:\\ä ö\\p.exe"))
    );
}

#[test]
fn quoted_path_reads_back() {
    for p in [r"C:\Program Files\Pin\pin.exe", " spaced ", "x", "ünï cödé.exe --not-an-arg"] {
        assert_eq!(parse_run_command_path(&quote_exe_path(p)), Some(p.to_string()));
    }
}

#[test]
fn paths_equal_falls_back_to_case_insensitive_text() {
    assert!(paths_equal(true, Some(false), "a", "b"));
    assert!(paths_equal(false, Some(true), "a", "b"));
    assert!(!paths_equal(false, Some(false), "a", "a"));
    assert!(paths_equal(false, None, r"C:\Pin\PIN.exe", r"c:\pin\pin.EXE"));
    assert!(!paths_equal(false, None, r"C:\Pin\pin.exe", r"C:\Pin\pin.ex"));
    assert!(!paths_equal(false, None, "É", "é"));
}

#[test]
fn run_state_follows_stored_value() {
    assert_eq!(run_state_of(None), RunState::Missing);
    assert_eq!(run_state_of(Some(true)), RunState::CurrentExe);
    assert_eq!(run_state_of(Some(false)), RunState::Other);
}

#[test]
fn reconcile_makes_effective_match_desired() {
    for desired in [true, false] {
        for run in [RunState::Missing, RunState::CurrentExe, RunState::Other] {
            let after = match reconcile_action(desired, run) {
                ReconcileAction::Noop => run,
                ReconcileAction::EnableRegistry => RunState::CurrentExe,
                ReconcileAction::DisableRegistry => RunState::Missing,
            };
            assert_eq!(autostart_state(desired, after).effective, desired);
        }
    }
}

#[test]
fn autostart_state_reports_current_exe_as_effective() {
    assert_eq!(
        autostart_state(true, RunState::CurrentExe),
        AutoStartState { desired: true, effective: true }
    );
    assert_eq!(
        autostart_state(false, RunState::Other),
        AutoStartState { desired: false, effective: false }
    );
    assert_eq!(
        autostart_state(true, RunState::Missing),
        AutoStartState { desired: true, effective: false }
    );
}

#[test]
fn run_value_drops_one_terminating_nul() {
    let buf = [0x43u16, 0x3A, 0, 0, 7];
    assert_eq!(run_value_unit_count(&buf, 6), 2);
    assert_eq!(run_value_unit_count(&buf, 8), 3);
    assert_eq!(run_value_unit_count(&buf, 4), 2);
    assert_eq!(run_value_unit_count(&buf, 5), 2);
    assert_eq!(run_value_unit_count(&buf, 0), 0);
    assert_eq!(run_value_unit_count(&buf, 20), 10);
    assert_eq!(run_value_unit_count(&[0u16], 2), 0);
}
