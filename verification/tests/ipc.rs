use facecam::formats::{PixelFormat, VideoMode};
use facecam::ipc::{
    command_text, handle_command, invalid_command, CommandStep, DaemonCommand, DaemonResponse,
    StepReply,
};
use facecam::types::{DaemonStatus, HealthStatus, PipelineState, StatusUpdate};

fn text(s: &str) -> String {
    s.to_string()
}

fn status(source: Option<&str>) -> DaemonStatus {
    DaemonStatus::initial(source.map(text), text("/dev/video10"), text("default"))
}

fn fail() -> StepReply {
    StepReply::Failed(text("words"))
}

fn error(step: CommandStep) -> String {
    match step {
        CommandStep::Answer(DaemonResponse::Error(words)) => words,
        other => panic!("{:?}", other),
    }
}

fn success(step: CommandStep) -> String {
    match step {
        CommandStep::Answer(DaemonResponse::Success(Some(words))) => words,
        other => panic!("{:?}", other),
    }
}

#[test]
fn the_status_is_answered_at_once() {
    let s = status(Some("/dev/video0"));
    match handle_command(DaemonCommand::Status, &s) {
        CommandStep::Answer(DaemonResponse::Status(answer)) => {
            assert_eq!(answer.source_device.as_deref(), Some("/dev/video0"));
            assert_eq!(answer.sink_device.as_deref(), Some("/dev/video10"));
            assert_eq!(answer.state, PipelineState::Idle);
            assert_eq!(answer.health, HealthStatus::Disconnected);
        }
        other => panic!("{:?}", other),
    }
}

#[test]
fn commands_without_a_camera_are_refused() {
    let s = status(None);
    for command in [
        DaemonCommand::SetControl { name: text("gain"), value: 1 },
        DaemonCommand::GetControl { name: text("gain") },
        DaemonCommand::GetAllControls,
    ] {
        assert_eq!(error(handle_command(command, &s)), "No source device connected");
    }
    let step = handle_command(DaemonCommand::ApplyProfile { name: text("p") }, &s);
    assert!(matches!(&step, CommandStep::LoadProfile { family, .. } if family == "facecam"));
    let refused = step.reply(StepReply::Loaded { controls: vec![], source: None });
    assert_eq!(error(refused), "No source device connected");
}

#[test]
fn controls_are_set_and_read_by_name() {
    let s = status(Some("/dev/video0"));
    let set = |name: &str, value| handle_command(DaemonCommand::SetControl { name: text(name), value }, &s);
    let step = set("Gain", -5);
    assert!(matches!(&step, CommandStep::OpenForSet { path, .. } if path == "/dev/video0"));
    let step = step.reply(StepReply::Done);
    assert!(matches!(&step, CommandStep::SetControl { id: 0x00980913, .. }));
    assert_eq!(success(step.clone().reply(StepReply::Done)), "Gain=-5");
    assert_eq!(error(step.reply(fail())), "Failed to set Gain: words");
    assert_eq!(error(set("gain", 1).reply(fail())), "Failed to open device: words");
    assert_eq!(error(set("nope", 1).reply(StepReply::Done)), "Unknown control: nope");
    let get = |name: &str| handle_command(DaemonCommand::GetControl { name: text(name) }, &s);
    let step = get("zoom").reply(StepReply::Done);
    assert!(matches!(&step, CommandStep::GetControl { id: 0x009A090D, .. }));
    assert!(matches!(
        step.clone().reply(StepReply::Value(3)),
        CommandStep::Answer(DaemonResponse::ControlValue { name, value: 3 }) if name == "zoom"
    ));
    assert_eq!(error(step.reply(fail())), "Failed to get zoom: words");
    assert_eq!(error(get("nope").reply(StepReply::Done)), "Unknown control: nope");
    assert_eq!(error(get("zoom").reply(fail())), "Failed to open device: words");
    let list = handle_command(DaemonCommand::GetAllControls, &s);
    assert_eq!(error(list.clone().reply(fail())), "Failed to open device: words");
    let list = list.reply(StepReply::Done);
    assert_eq!(error(list.clone().reply(fail())), "Failed to enumerate controls: words");
    assert!(matches!(
        list.reply(StepReply::Controls(vec![])),
        CommandStep::Answer(DaemonResponse::Controls(c)) if c.is_empty()
    ));
}

#[test]
fn profiles_try_every_control_and_count() {
    let mut s = status(Some("/dev/video0"));
    s.product_family = Some(text("facecam-pro"));
    let step = handle_command(DaemonCommand::ApplyProfile { name: text("night") }, &s);
    assert!(matches!(&step, CommandStep::LoadProfile { name, family } if name == "night" && family == "facecam-pro"));
    assert_eq!(error(step.clone().reply(fail())), "Failed to load profile 'night': words");
    let controls = vec![(text("gain"), 1), (text("what"), 2), (text("zoom"), 3), (text("pan"), 4)];
    let step = step.reply(StepReply::Loaded { controls, source: Some(text("/dev/video3")) });
    assert!(matches!(&step, CommandStep::OpenForProfile { path, settings, .. } if path == "/dev/video3" && settings.len() == 3));
    assert_eq!(error(step.clone().reply(fail())), "Failed to open device: words");
    let mut step = step.reply(StepReply::Done);
    for reply in [StepReply::Done, fail(), StepReply::Done] {
        assert!(matches!(&step, CommandStep::ApplySetting { .. }));
        step = step.reply(reply);
    }
    match &step {
        CommandStep::Publish { update: StatusUpdate::Profile(name), .. } => assert_eq!(name, "night"),
        other => panic!("{:?}", other),
    }
    assert_eq!(success(step.reply(StepReply::Done)), "Profile 'night' applied (2 controls set)");
}

#[test]
fn the_other_commands_have_fixed_answers() {
    let s = status(None);
    let export = handle_command(DaemonCommand::ExportDiagnostics, &s);
    assert!(matches!(
        export.clone().reply(StepReply::Exported(text("/tmp/x.json"))),
        CommandStep::Answer(DaemonResponse::DiagnosticsExported(p)) if p == "/tmp/x.json"
    ));
    assert_eq!(error(export.reply(fail())), "Failed to export diagnostics: words");
    let reset = handle_command(DaemonCommand::ForceReset, &s);
    assert_eq!(success(reset.clone().reply(StepReply::Done)), "USB reset completed");
    assert_eq!(error(reset.reply(fail())), "USB reset failed: words");
    let restart = handle_command(DaemonCommand::RestartPipeline, &s);
    assert!(matches!(&restart, CommandStep::Publish { update: StatusUpdate::Restart, .. }));
    let answered = restart.reply(StepReply::Done);
    assert_eq!(success(answered.clone()), "Pipeline restart requested");
    assert_eq!(success(answered.reply(fail())), "Pipeline restart requested");
    let shutdown = handle_command(DaemonCommand::Shutdown, &s);
    assert!(matches!(&shutdown, CommandStep::SignalShutdown));
    assert_eq!(success(shutdown.reply(StepReply::Done)), "Shutting down");
}

#[test]
fn lines_hold_commands_unless_they_are_blank() {
    assert_eq!(command_text(" \"Status\"\n"), Some(text("\"Status\"")));
    assert_eq!(command_text(" \n"), None);
    assert!(matches!(invalid_command("eof"), DaemonResponse::Error(w) if w == "Invalid command: eof"));
}

#[test]
fn status_updates_change_their_fields_only() {
    let mode = VideoMode {
        format: PixelFormat::Uyvy,
        width: 2,
        height: 1,
        fps_numerator: 1,
        fps_denominator: 30,
    };
    let mut s = status(None);
    s.apply(StatusUpdate::State(PipelineState::Streaming, HealthStatus::Healthy));
    s.apply(StatusUpdate::LastError(Some(text("e"))));
    s.apply(StatusUpdate::Source(Some(text("/dev/video1"))));
    s.apply(StatusUpdate::Connected(true));
    s.apply(StatusUpdate::Mode(Some(mode)));
    s.apply(StatusUpdate::RecoveryCount(3));
    s.apply(StatusUpdate::FrameCounts(6, 5, 1));
    s.apply(StatusUpdate::Profile(text("night")));
    assert_eq!((s.state.to_text(), s.health.to_text()), ("streaming", "healthy"));
    assert_eq!((s.frames_captured, s.frames_written, s.frames_dropped), (6, 5, 1));
    assert_eq!(s.active_mode, Some(mode));
    assert_eq!(s.recovery_count, 3);
    assert!(s.device_connected);
    assert_eq!(s.active_profile.as_deref(), Some("night"));
    assert_eq!(s.sink_device.as_deref(), Some("/dev/video10"));
    s.apply(StatusUpdate::Restart);
    assert_eq!((s.state.to_text(), s.health.to_text()), ("recovering", "healthy"));
    assert_eq!(PipelineState::ShuttingDown.to_text(), "shutting_down");
    assert_eq!(HealthStatus::Disconnected.to_text(), "disconnected");
}
