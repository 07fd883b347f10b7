use facecam::ctl::{
    control_outcome, controls_outcome, diagnostics_outcome, family_from_daemon,
    print_simple_response, profile_line, profile_report, status_report, Outcome,
};
use facecam::ipc::DaemonResponse;
use facecam::profiles::{Profile, ProfileVideoMode};
use facecam::types::{ControlType, ControlValue, DaemonStatus};

fn text(s: &str) -> String {
    s.to_string()
}

fn printed(outcome: Outcome) -> String {
    match outcome {
        Outcome::Print(t) => t,
        other => panic!("{:?}", other),
    }
}

#[test]
fn the_status_is_reported_line_by_line() {
    let mut s = DaemonStatus::initial(None, text("/dev/video10"), text("default"));
    let report = status_report(&s, &None);
    assert_eq!(
        report,
        "=== Facecam Daemon Status ===\n\n  State:          idle\n  Health:         disconnected\n  \
         Uptime:         0s\n  Connected:      false\n  Mode:           none\n  Frames:         \
         captured=0 written=0 dropped=0\n  Recoveries:     0\n  Source:         none\n  Sink:           \
         /dev/video10\n  Profile:        default\n"
    );
    s.product = Some(text("Facecam Pro"));
    s.last_error = Some(text("boom"));
    let report = status_report(&s, &Some(text("1920x1080")));
    assert!(report.contains("  State:          idle\n  Product:        Facecam Pro\n  Health: "));
    assert!(report.contains("  Mode:           1920x1080\n"));
    assert!(report.ends_with("  Last Error:     boom\n"));
}

#[test]
fn answers_are_printed_or_refused() {
    let value = DaemonResponse::ControlValue { name: text("gain"), value: -2 };
    assert_eq!(printed(control_outcome(&value)), "gain = -2\n");
    assert!(matches!(print_simple_response(&value), Outcome::Unexpected));
    let error = DaemonResponse::Error(text("no"));
    assert!(matches!(control_outcome(&error), Outcome::Refused(w) if w == "no"));
    assert!(matches!(controls_outcome(&error), Outcome::Refused(_)));
    assert!(matches!(diagnostics_outcome(&error), Outcome::Refused(_)));
    assert!(matches!(print_simple_response(&error), Outcome::Refused(_)));
    let ok = DaemonResponse::Success(None);
    assert_eq!(printed(print_simple_response(&ok)), "OK\n");
    assert!(matches!(control_outcome(&ok), Outcome::Unexpected));
    assert!(matches!(controls_outcome(&ok), Outcome::Unexpected));
    assert!(matches!(diagnostics_outcome(&ok), Outcome::Unexpected));
    assert_eq!(printed(print_simple_response(&DaemonResponse::Success(Some(text("done"))))), "done\n");
    let exported = DaemonResponse::DiagnosticsExported(text("/tmp/x"));
    assert_eq!(printed(diagnostics_outcome(&exported)), "Diagnostics exported to: /tmp/x\n");
}

#[test]
fn controls_are_listed_in_columns() {
    let c = ControlValue {
        name: text("Brightness"),
        id: 1,
        control_type: ControlType::Integer,
        value: 12,
        minimum: -5,
        maximum: 255,
        step: 1,
        default: 128,
        flags: 0,
        menu_items: vec![],
    };
    let expected = format!(
        "=== Camera Controls ===\n\n  {:30} = {:6}  (range [{}, {}], default {})\n",
        "Brightness", 12, -5, 255, 128
    );
    assert_eq!(printed(controls_outcome(&DaemonResponse::Controls(vec![c]))), expected);
}

#[test]
fn families_come_from_the_daemon_or_default() {
    let mut s = DaemonStatus::initial(None, text("x"), text("y"));
    assert_eq!(family_from_daemon(&Some(DaemonResponse::Status(s.clone()))), "facecam");
    s.product_family = Some(text("facecam-pro"));
    assert_eq!(family_from_daemon(&Some(DaemonResponse::Status(s))), "facecam-pro");
    assert_eq!(family_from_daemon(&None), "facecam");
    assert_eq!(family_from_daemon(&Some(DaemonResponse::Success(None))), "facecam");
}

#[test]
fn profiles_are_listed_and_shown() {
    assert_eq!(profile_line("night", &Some(text("dark"))), format!("  {:15} — {}\n", "night", "dark"));
    assert_eq!(profile_line("night", &None), "  night\n");
    let p = Profile {
        name: text("night"),
        description: text("dark"),
        video_mode: Some(ProfileVideoMode { width: 1920, height: 1080, fps: 30, format: text("MJPG") }),
        controls: vec![(text("gain"), 5)],
    };
    assert_eq!(
        profile_report(&p),
        format!(
            "=== Profile: night ===\n\n  Description: dark\n  Video Mode:  1920x1080 @ 30 fps (MJPG)\n  Controls:\n    {:30} = 5\n",
            "gain"
        )
    );
}
