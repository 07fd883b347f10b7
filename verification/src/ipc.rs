//! The commands that clients send to the daemon, and how the daemon answers them.
//!
//! A command is answered in steps. A step that touches a device, a file or the published status is
//! made by the caller, which then says what came of it.

use crate::pipeline::ControlSetting;
use crate::text::{self, push_decimal, push_signed, trim};
use crate::types::{ControlValue, DaemonStatus, StatusUpdate};
use crate::v4l2::{self, control_field, control_name_to_id};
use vstd::prelude::*;
use vstd::string::*;

verus! {

/// A command of a client.
#[derive(Debug, Clone)]
pub enum DaemonCommand {
    Status,
    ApplyProfile { name: String },
    SetControl { name: String, value: i64 },
    GetControl { name: String },
    GetAllControls,
    ExportDiagnostics,
    ForceReset,
    RestartPipeline,
    Shutdown,
}

/// The answer of the daemon.
#[derive(Debug, Clone)]
pub enum DaemonResponse {
    Success(Option<String>),
    Error(String),
    Status(DaemonStatus),
    ControlValue { name: String, value: i64 },
    Controls(Vec<ControlValue>),
    DiagnosticsExported(String),
}

/// The answer of the daemon, with its words as character sequences.
pub ghost enum ResponseModel {
    Success(Option<Seq<char>>),
    Error(Seq<char>),
    Status(DaemonStatus),
    ControlValue { name: Seq<char>, value: i64 },
    Controls(Vec<ControlValue>),
    DiagnosticsExported(Seq<char>),
}

impl View for DaemonResponse {
    type V = ResponseModel;

    open spec fn view(&self) -> ResponseModel {
        match *self {
            DaemonResponse::Success(message) => ResponseModel::Success(text::opt_view(message)),
            DaemonResponse::Error(words) => ResponseModel::Error(words@),
            DaemonResponse::Status(status) => ResponseModel::Status(status),
            DaemonResponse::ControlValue { name, value } => ResponseModel::ControlValue {
                name: name@,
                value,
            },
            DaemonResponse::Controls(controls) => ResponseModel::Controls(controls),
            DaemonResponse::DiagnosticsExported(path) => ResponseModel::DiagnosticsExported(path@),
        }
    }
}

/// The family whose profiles are used before a product was detected.
pub const DEFAULT_FAMILY: &'static str = "facecam";

/// The answer where no camera is connected.
pub const NO_SOURCE_DEVICE: &'static str = "No source device connected";

/// What is to be done next to answer a command.
#[derive(Debug, Clone)]
pub enum CommandStep {
    /// Nothing: this is the answer.
    Answer(DaemonResponse),
    /// Load the profile with this name for this product family.
    LoadProfile { name: String, family: String },
    /// Open the device at this path, to apply a profile.
    OpenForProfile { path: String, name: String, settings: Vec<ControlSetting> },
    /// Set the control at the position `next`; so many were set before.
    ApplySetting { name: String, settings: Vec<ControlSetting>, next: usize, applied: u64 },
    /// Publish a change of the status, and give this answer.
    Publish { update: StatusUpdate, answer: DaemonResponse },
    /// Open the device at this path, to set a control.
    OpenForSet { path: String, name: String, value: i64 },
    /// Set a control.
    SetControl { id: u32, name: String, value: i64 },
    /// Open the device at this path, to read a control.
    OpenForGet { path: String, name: String },
    /// Read a control.
    GetControl { id: u32, name: String },
    /// Open the device at this path, to list its controls.
    OpenForList { path: String },
    /// List the controls.
    ListControls,
    /// Write a diagnostics bundle with the current status.
    ExportDiagnostics,
    /// Reset the camera.
    ResetDevice,
    /// Tell the daemon to shut down.
    SignalShutdown,
}

/// What came of a step.
#[derive(Debug, Clone)]
pub enum StepReply {
    /// The profile was loaded: its controls, and the device that is connected now.
    Loaded { controls: Vec<(String, i64)>, source: Option<String> },
    /// The step succeeded.
    Done,
    /// The control has this value.
    Value(i64),
    /// The controls of the device.
    Controls(Vec<ControlValue>),
    /// The bundle was written to this path.
    Exported(String),
    /// The step failed; the words of the error.
    Failed(String),
}

/// What is to be done next, with texts and lists as sequences.
pub ghost enum StepModel {
    Answer(ResponseModel),
    LoadProfile { name: Seq<char>, family: Seq<char> },
    OpenForProfile { path: Seq<char>, name: Seq<char>, settings: Seq<ControlSetting> },
    ApplySetting { name: Seq<char>, settings: Seq<ControlSetting>, next: nat, applied: nat },
    Publish { update: UpdateModel, answer: ResponseModel },
    OpenForSet { path: Seq<char>, name: Seq<char>, value: i64 },
    SetControl { id: u32, name: Seq<char>, value: i64 },
    OpenForGet { path: Seq<char>, name: Seq<char> },
    GetControl { id: u32, name: Seq<char> },
    OpenForList { path: Seq<char> },
    ListControls,
    ExportDiagnostics,
    ResetDevice,
    SignalShutdown,
}

/// The changes of the status that commands make.
pub ghost enum UpdateModel {
    /// The active profile.
    Profile(Seq<char>),
    /// A restart of the pipeline.
    Restart,
    /// Any other change.
    Other(StatusUpdate),
}

/// The model of a change of the status.
pub open spec fn update_model(update: StatusUpdate) -> UpdateModel {
    match update {
        StatusUpdate::Profile(name) => UpdateModel::Profile(name@),
        StatusUpdate::Restart => UpdateModel::Restart,
        other => UpdateModel::Other(other),
    }
}

impl View for CommandStep {
    type V = StepModel;

    open spec fn view(&self) -> StepModel {
        match *self {
            CommandStep::Answer(answer) => StepModel::Answer(answer@),
            CommandStep::LoadProfile { name, family } => StepModel::LoadProfile {
                name: name@,
                family: family@,
            },
            CommandStep::OpenForProfile { path, name, settings } => StepModel::OpenForProfile {
                path: path@,
                name: name@,
                settings: settings@,
            },
            CommandStep::ApplySetting { name, settings, next, applied } => StepModel::ApplySetting {
                name: name@,
                settings: settings@,
                next: next as nat,
                applied: applied as nat,
            },
            CommandStep::Publish { update, answer } => StepModel::Publish {
                update: update_model(update),
                answer: answer@,
            },
            CommandStep::OpenForSet { path, name, value } => StepModel::OpenForSet {
                path: path@,
                name: name@,
                value,
            },
            CommandStep::SetControl { id, name, value } => StepModel::SetControl {
                id,
                name: name@,
                value,
            },
            CommandStep::OpenForGet { path, name } => StepModel::OpenForGet {
                path: path@,
                name: name@,
            },
            CommandStep::GetControl { id, name } => StepModel::GetControl { id, name: name@ },
            CommandStep::OpenForList { path } => StepModel::OpenForList { path: path@ },
            CommandStep::ListControls => StepModel::ListControls,
            CommandStep::ExportDiagnostics => StepModel::ExportDiagnostics,
            CommandStep::ResetDevice => StepModel::ResetDevice,
            CommandStep::SignalShutdown => StepModel::SignalShutdown,
        }
    }
}

/// The answer that something went wrong.
pub open spec fn error_answer(words: Seq<char>) -> StepModel {
    StepModel::Answer(ResponseModel::Error(words))
}

/// The answer that all is well.
pub open spec fn ok_answer(words: Seq<char>) -> ResponseModel {
    ResponseModel::Success(Some(words))
}

/// The first step of a command.
pub open spec fn first_step(command: DaemonCommand, status: DaemonStatus) -> StepModel {
    match command {
        DaemonCommand::Status => StepModel::Answer(ResponseModel::Status(status)),
        DaemonCommand::ApplyProfile { name } => StepModel::LoadProfile {
            name: name@,
            family: match status.product_family {
                Some(family) => family@,
                None => DEFAULT_FAMILY@,
            },
        },
        DaemonCommand::SetControl { name, value } => match status.source_device {
            Some(path) => StepModel::OpenForSet { path: path@, name: name@, value },
            None => error_answer(NO_SOURCE_DEVICE@),
        },
        DaemonCommand::GetControl { name } => match status.source_device {
            Some(path) => StepModel::OpenForGet { path: path@, name: name@ },
            None => error_answer(NO_SOURCE_DEVICE@),
        },
        DaemonCommand::GetAllControls => match status.source_device {
            Some(path) => StepModel::OpenForList { path: path@ },
            None => error_answer(NO_SOURCE_DEVICE@),
        },
        DaemonCommand::ExportDiagnostics => StepModel::ExportDiagnostics,
        DaemonCommand::ForceReset => StepModel::ResetDevice,
        DaemonCommand::RestartPipeline => StepModel::Publish {
            update: UpdateModel::Restart,
            answer: ok_answer("Pipeline restart requested"@),
        },
        DaemonCommand::Shutdown => StepModel::SignalShutdown,
    }
}

/// The settings of the controls of a profile, under the names that the profile gives them.
/// Controls whose names are not known are left out.
pub open spec fn named_settings(controls: Seq<(String, i64)>) -> Seq<ControlSetting>
    decreases controls.len(),
{
    if controls.len() == 0 {
        Seq::empty()
    } else {
        let before = named_settings(controls.drop_last());
        match v4l2::named_id(controls.last().0@) {
            Some(id) => before.push(
                ControlSetting { id, value: v4l2::low_half(controls.last().1) },
            ),
            None => before,
        }
    }
}

/// The answer after a profile was applied.
pub open spec fn applied_text(name: Seq<char>, applied: nat) -> Seq<char> {
    "Profile '"@ + name + "' applied ("@ + text::decimal(applied) + " controls set)"@
}

/// The settings from `next` on are to be made; then the profile is published.
pub open spec fn settings_from(
    name: Seq<char>,
    settings: Seq<ControlSetting>,
    next: nat,
    applied: nat,
) -> StepModel {
    if next < settings.len() {
        StepModel::ApplySetting { name, settings, next, applied }
    } else {
        StepModel::Publish {
            update: UpdateModel::Profile(name),
            answer: ok_answer(applied_text(name, applied)),
        }
    }
}

/// The next step after one was made. An answer that does not belong to the step changes nothing.
pub open spec fn next_step(step: StepModel, reply: StepReply) -> StepModel {
    match step {
        StepModel::Answer(_) => step,
        StepModel::LoadProfile { name, .. } => match reply {
            StepReply::Loaded { controls, source } => match source {
                Some(path) => StepModel::OpenForProfile {
                    path: path@,
                    name,
                    settings: named_settings(controls@),
                },
                None => error_answer(NO_SOURCE_DEVICE@),
            },
            StepReply::Failed(words) => error_answer(
                "Failed to load profile '"@ + name + "': "@ + words@,
            ),
            _ => step,
        },
        StepModel::OpenForProfile { name, settings, .. } => match reply {
            StepReply::Done => settings_from(name, settings, 0, 0),
            StepReply::Failed(words) => error_answer("Failed to open device: "@ + words@),
            _ => step,
        },
        StepModel::ApplySetting { name, settings, next, applied } => match reply {
            StepReply::Done => settings_from(name, settings, next + 1, applied + 1),
            StepReply::Failed(_) => settings_from(name, settings, next + 1, applied),
            _ => step,
        },
        StepModel::Publish { answer, .. } => match reply {
            StepReply::Done | StepReply::Failed(_) => StepModel::Answer(answer),
            _ => step,
        },
        StepModel::OpenForSet { name, value, .. } => match reply {
            StepReply::Done => match v4l2::named_id(name) {
                Some(id) => StepModel::SetControl { id, name, value },
                None => error_answer("Unknown control: "@ + name),
            },
            StepReply::Failed(words) => error_answer("Failed to open device: "@ + words@),
            _ => step,
        },
        StepModel::SetControl { name, value, .. } => match reply {
            StepReply::Done => StepModel::Answer(
                ok_answer(name + "="@ + text::signed_decimal(value as int)),
            ),
            StepReply::Failed(words) => error_answer("Failed to set "@ + name + ": "@ + words@),
            _ => step,
        },
        StepModel::OpenForGet { name, .. } => match reply {
            StepReply::Done => match v4l2::named_id(name) {
                Some(id) => StepModel::GetControl { id, name },
                None => error_answer("Unknown control: "@ + name),
            },
            StepReply::Failed(words) => error_answer("Failed to open device: "@ + words@),
            _ => step,
        },
        StepModel::GetControl { name, .. } => match reply {
            StepReply::Value(value) => StepModel::Answer(
                ResponseModel::ControlValue { name, value },
            ),
            StepReply::Failed(words) => error_answer("Failed to get "@ + name + ": "@ + words@),
            _ => step,
        },
        StepModel::OpenForList { .. } => match reply {
            StepReply::Done => StepModel::ListControls,
            StepReply::Failed(words) => error_answer("Failed to open device: "@ + words@),
            _ => step,
        },
        StepModel::ListControls => match reply {
            StepReply::Controls(controls) => StepModel::Answer(ResponseModel::Controls(controls)),
            StepReply::Failed(words) => error_answer("Failed to enumerate controls: "@ + words@),
            _ => step,
        },
        StepModel::ExportDiagnostics => match reply {
            StepReply::Exported(path) => StepModel::Answer(
                ResponseModel::DiagnosticsExported(path@),
            ),
            StepReply::Failed(words) => error_answer("Failed to export diagnostics: "@ + words@),
            _ => step,
        },
        StepModel::ResetDevice => match reply {
            StepReply::Done => StepModel::Answer(ok_answer("USB reset completed"@)),
            StepReply::Failed(words) => error_answer("USB reset failed: "@ + words@),
            _ => step,
        },
        StepModel::SignalShutdown => match reply {
            StepReply::Done | StepReply::Failed(_) => StepModel::Answer(
                ok_answer("Shutting down"@),
            ),
            _ => step,
        },
    }
}

/// Whether a step can be reached: there is a setting to make, and no more were made than there
/// are.
pub open spec fn step_ok(step: StepModel) -> bool {
    match step {
        StepModel::ApplySetting { settings, next, applied, .. } => next < settings.len() && applied
            <= next,
        _ => true,
    }
}

fn failed(context: &str, words: &str) -> (r: CommandStep)
    ensures
        r@ == error_answer(context@ + words@),
{
    let mut message = context.to_owned();
    message.append(words);
    CommandStep::Answer(DaemonResponse::Error(message))
}

fn failed_with_name(context: &str, name: &str, sep: &str, words: &str) -> (r: CommandStep)
    ensures
        r@ == error_answer(context@ + name@ + sep@ + words@),
{
    let mut message = context.to_owned();
    message.append(name);
    message.append(sep);
    message.append(words);
    CommandStep::Answer(DaemonResponse::Error(message))
}

fn settings_named(controls: &Vec<(String, i64)>) -> (r: Vec<ControlSetting>)
    ensures
        r@ == named_settings(controls@),
{
    let mut settings: Vec<ControlSetting> = Vec::new();
    for i in 0..controls.len()
        invariant
            settings@ == named_settings(controls@.take(i as int)),
    {
        let value: i64 = controls[i].1;
        if let Some(id) = control_name_to_id(controls[i].0.as_str()) {
            settings.push(ControlSetting { id, value: control_field(value) });
        }
        proof {
            assert(controls@.take(i + 1).drop_last() =~= controls@.take(i as int));
        }
    }
    proof {
        assert(controls@.take(controls@.len() as int) =~= controls@);
    }
    settings
}

fn settings_step(name: String, settings: Vec<ControlSetting>, next: usize, applied: u64) -> (r:
    CommandStep)
    ensures
        r@ == settings_from(name@, settings@, next as nat, applied as nat),
{
    if next < settings.len() {
        CommandStep::ApplySetting { name, settings, next, applied }
    } else {
        let mut message = "Profile '".to_owned();
        message.append(name.as_str());
        message.append("' applied (");
        push_decimal(&mut message, applied);
        message.append(" controls set)");
        CommandStep::Publish {
            update: StatusUpdate::Profile(name),
            answer: DaemonResponse::Success(Some(message)),
        }
    }
}

/// The first step of a command, with the status of the daemon at this time.
pub fn handle_command(command: DaemonCommand, status: &DaemonStatus) -> (r: CommandStep)
    ensures
        r@ == first_step(command, *status),
        step_ok(r@),
{
    match command {
        DaemonCommand::Status => CommandStep::Answer(DaemonResponse::Status(status.duplicate())),
        DaemonCommand::ApplyProfile { name } => {
            let family = match &status.product_family {
                Some(family) => family.clone(),
                None => DEFAULT_FAMILY.to_owned(),
            };
            CommandStep::LoadProfile { name, family }
        },
        DaemonCommand::SetControl { name, value } => match &status.source_device {
            Some(path) => CommandStep::OpenForSet { path: path.clone(), name, value },
            None => CommandStep::Answer(DaemonResponse::Error(NO_SOURCE_DEVICE.to_owned())),
        },
        DaemonCommand::GetControl { name } => match &status.source_device {
            Some(path) => CommandStep::OpenForGet { path: path.clone(), name },
            None => CommandStep::Answer(DaemonResponse::Error(NO_SOURCE_DEVICE.to_owned())),
        },
        DaemonCommand::GetAllControls => match &status.source_device {
            Some(path) => CommandStep::OpenForList { path: path.clone() },
            None => CommandStep::Answer(DaemonResponse::Error(NO_SOURCE_DEVICE.to_owned())),
        },
        DaemonCommand::ExportDiagnostics => CommandStep::ExportDiagnostics,
        DaemonCommand::ForceReset => CommandStep::ResetDevice,
        DaemonCommand::RestartPipeline => CommandStep::Publish {
            update: StatusUpdate::Restart,
            answer: DaemonResponse::Success(Some("Pipeline restart requested".to_owned())),
        },
        DaemonCommand::Shutdown => CommandStep::SignalShutdown,
    }
}

impl CommandStep {
    /// Takes what came of the step.
    pub fn reply(self, reply: StepReply) -> (r: Self)
        requires
            step_ok(self@),
        ensures
            r@ == next_step(self@, reply),
            step_ok(r@),
    {
        match self {
            CommandStep::Answer(answer) => CommandStep::Answer(answer),
            CommandStep::LoadProfile { name, family } => match reply {
                StepReply::Loaded { controls, source } => match source {
                    Some(path) => CommandStep::OpenForProfile {
                        path,
                        name,
                        settings: settings_named(&controls),
                    },
                    None => CommandStep::Answer(
                        DaemonResponse::Error(NO_SOURCE_DEVICE.to_owned()),
                    ),
                },
                StepReply::Failed(words) => failed_with_name(
                    "Failed to load profile '",
                    name.as_str(),
                    "': ",
                    words.as_str(),
                ),
                _ => CommandStep::LoadProfile { name, family },
            },
            CommandStep::OpenForProfile { path, name, settings } => match reply {
                StepReply::Done => settings_step(name, settings, 0, 0),
                StepReply::Failed(words) => failed("Failed to open device: ", words.as_str()),
                _ => CommandStep::OpenForProfile { path, name, settings },
            },
            CommandStep::ApplySetting { name, settings, next, applied } => {
                let count: usize = settings.len();
                assert(next < count);
                match reply {
                    StepReply::Done => settings_step(name, settings, next + 1, applied + 1),
                    StepReply::Failed(_) => settings_step(name, settings, next + 1, applied),
                    _ => CommandStep::ApplySetting { name, settings, next, applied },
                }
            },
            CommandStep::Publish { update, answer } => match reply {
                StepReply::Done | StepReply::Failed(_) => CommandStep::Answer(answer),
                _ => CommandStep::Publish { update, answer },
            },
            CommandStep::OpenForSet { path, name, value } => match reply {
                StepReply::Done => match control_name_to_id(name.as_str()) {
                    Some(id) => CommandStep::SetControl { id, name, value },
                    None => failed("Unknown control: ", name.as_str()),
                },
                StepReply::Failed(words) => failed("Failed to open device: ", words.as_str()),
                _ => CommandStep::OpenForSet { path, name, value },
            },
            CommandStep::SetControl { id, name, value } => match reply {
                StepReply::Done => {
                    let mut message = name.clone();
                    message.append("=");
                    push_signed(&mut message, value);
                    CommandStep::Answer(DaemonResponse::Success(Some(message)))
                },
                StepReply::Failed(words) => failed_with_name(
                    "Failed to set ",
                    name.as_str(),
                    ": ",
                    words.as_str(),
                ),
                _ => CommandStep::SetControl { id, name, value },
            },
            CommandStep::OpenForGet { path, name } => match reply {
                StepReply::Done => match control_name_to_id(name.as_str()) {
                    Some(id) => CommandStep::GetControl { id, name },
                    None => failed("Unknown control: ", name.as_str()),
                },
                StepReply::Failed(words) => failed("Failed to open device: ", words.as_str()),
                _ => CommandStep::OpenForGet { path, name },
            },
            CommandStep::GetControl { id, name } => match reply {
                StepReply::Value(value) => CommandStep::Answer(
                    DaemonResponse::ControlValue { name, value },
                ),
                StepReply::Failed(words) => failed_with_name(
                    "Failed to get ",
                    name.as_str(),
                    ": ",
                    words.as_str(),
                ),
                _ => CommandStep::GetControl { id, name },
            },
            CommandStep::OpenForList { path } => match reply {
                StepReply::Done => CommandStep::ListControls,
                StepReply::Failed(words) => failed("Failed to open device: ", words.as_str()),
                _ => CommandStep::OpenForList { path },
            },
            CommandStep::ListControls => match reply {
                StepReply::Controls(controls) => CommandStep::Answer(
                    DaemonResponse::Controls(controls),
                ),
                StepReply::Failed(words) => failed(
                    "Failed to enumerate controls: ",
                    words.as_str(),
                ),
                _ => CommandStep::ListControls,
            },
            CommandStep::ExportDiagnostics => match reply {
                StepReply::Exported(path) => CommandStep::Answer(
                    DaemonResponse::DiagnosticsExported(path),
                ),
                StepReply::Failed(words) => failed(
                    "Failed to export diagnostics: ",
                    words.as_str(),
                ),
                _ => CommandStep::ExportDiagnostics,
            },
            CommandStep::ResetDevice => match reply {
                StepReply::Done => CommandStep::Answer(
                    DaemonResponse::Success(Some("USB reset completed".to_owned())),
                ),
                StepReply::Failed(words) => failed("USB reset failed: ", words.as_str()),
                _ => CommandStep::ResetDevice,
            },
            CommandStep::SignalShutdown => match reply {
                StepReply::Done | StepReply::Failed(_) => CommandStep::Answer(
                    DaemonResponse::Success(Some("Shutting down".to_owned())),
                ),
                _ => CommandStep::SignalShutdown,
            },
        }
    }
}

/// The command in a line of a client, without the space around it. An empty line holds none.
pub fn command_text(line: &str) -> (r: Option<String>)
    ensures
        match r {
            Some(command) => command@ == text::trimmed(line@) && command@.len() > 0,
            None => text::trimmed(line@).len() == 0,
        },
{
    let command = trim(line);
    if command.as_str().unicode_len() == 0 {
        None
    } else {
        Some(command)
    }
}

/// The answer to a line that holds no command; the words of the parser.
pub fn invalid_command(words: &str) -> (r: DaemonResponse)
    ensures
        r@ == ResponseModel::Error("Invalid command: "@ + words@),
{
    let mut message = "Invalid command: ".to_owned();
    message.append(words);
    DaemonResponse::Error(message)
}

// ---------------------------------------------------------------------------------------------
// Laws
// ---------------------------------------------------------------------------------------------

/// A command that needs a camera is refused where none is connected, before anything is touched.
pub proof fn commands_need_a_source(command: DaemonCommand, status: DaemonStatus)
    requires
        status.source_device is None,
        command is SetControl || command is GetControl || command is GetAllControls,
    ensures
        first_step(command, status) == error_answer(NO_SOURCE_DEVICE@),
{
}

/// An unknown control is refused after the device was opened, and is never set or read.
pub proof fn unknown_controls_are_refused(path: Seq<char>, name: Seq<char>, value: i64)
    requires
        v4l2::named_id(name) is None,
    ensures
        next_step(StepModel::OpenForSet { path, name, value }, StepReply::Done) == error_answer(
            "Unknown control: "@ + name,
        ),
        next_step(StepModel::OpenForGet { path, name }, StepReply::Done) == error_answer(
            "Unknown control: "@ + name,
        ),
{
}

/// Where a control can be set, the command says which control now has which value.
pub proof fn set_control_reports_the_value(
    name: String,
    value: i64,
    status: DaemonStatus,
    id: u32,
)
    requires
        status.source_device is Some,
        v4l2::named_id(name@) == Some(id),
    ensures
        ({
            let s1 = first_step(DaemonCommand::SetControl { name, value }, status);
            let s2 = next_step(s1, StepReply::Done);
            &&& s2 == (StepModel::SetControl { id, name: name@, value })
            &&& next_step(s2, StepReply::Done) == StepModel::Answer(
                ok_answer(name@ + "="@ + text::signed_decimal(value as int)),
            )
        }),
{
}

/// A failed step is answered with an error that ends with the words of the failure; only a control
/// of a profile that cannot be set is passed over, and a change of the status or a shutdown that
/// nobody hears of.
pub proof fn failures_are_reported(step: StepModel, words: String)
    requires
        !(step is Answer),
        !(step is ApplySetting),
        !(step is Publish),
        !(step is SignalShutdown),
    ensures
        next_step(step, StepReply::Failed(words)) matches StepModel::Answer(
            ResponseModel::Error(message),
        ) && message.len() >= words@.len() && message.skip(message.len() - words@.len()) =~= words@,
{
    broadcast use vstd::seq_lib::group_seq_properties;

}

/// The replies to the settings of a profile: whether each could be made.
pub open spec fn setting_replies(made: Seq<bool>, words: String) -> Seq<StepReply> {
    made.map_values(
        |ok: bool|
            if ok {
                StepReply::Done
            } else {
                StepReply::Failed(words)
            },
    )
}

/// How many settings could be made.
pub open spec fn count_made(made: Seq<bool>) -> nat
    decreases made.len(),
{
    if made.len() == 0 {
        0
    } else {
        count_made(made.drop_last()) + if made.last() {
            1nat
        } else {
            0nat
        }
    }
}

/// The step after a list of replies.
pub open spec fn after_steps(step: StepModel, replies: Seq<StepReply>) -> StepModel
    decreases replies.len(),
{
    if replies.len() == 0 {
        step
    } else {
        next_step(after_steps(step, replies.drop_last()), replies.last())
    }
}

/// Every control of a profile is tried, whatever becomes of the others; in the end the profile is
/// published as active, and the answer says how many controls could be set.
pub proof fn profiles_are_applied_in_full(
    name: Seq<char>,
    settings: Seq<ControlSetting>,
    made: Seq<bool>,
    words: String,
)
    requires
        made.len() <= settings.len(),
    ensures
        after_steps(settings_from(name, settings, 0, 0), setting_replies(made, words))
            == settings_from(name, settings, made.len(), count_made(made)),
        made.len() == settings.len() ==> after_steps(
            settings_from(name, settings, 0, 0),
            setting_replies(made, words),
        ) == (StepModel::Publish {
            update: UpdateModel::Profile(name),
            answer: ok_answer(applied_text(name, count_made(made))),
        }),
    decreases made.len(),
{
    if made.len() > 0 {
        profiles_are_applied_in_full(name, settings, made.drop_last(), words);
        assert(setting_replies(made, words).drop_last() =~= setting_replies(
            made.drop_last(),
            words,
        ));
    }
}

/// An answer is final.
pub proof fn answers_are_final(step: StepModel, reply: StepReply)
    requires
        step is Answer,
    ensures
        next_step(step, reply) == step,
{
}

/// A command goes to the source that is connected, with the name and the value that it was given; a
/// profile is looked for in the family of the product, or in that of the original camera where the
/// product is not known.
pub proof fn commands_keep_what_they_were_given(
    name: String,
    value: i64,
    status: DaemonStatus,
    path: String,
    family: String,
)
    requires
        status.source_device == Some(path),
    ensures
        first_step(DaemonCommand::SetControl { name, value }, status) == (StepModel::OpenForSet {
            path: path@,
            name: name@,
            value,
        }),
        first_step(DaemonCommand::GetControl { name }, status) == (StepModel::OpenForGet {
            path: path@,
            name: name@,
        }),
        first_step(DaemonCommand::GetAllControls, status) == (StepModel::OpenForList { path: path@ }),
        status.product_family == Some(family) ==> first_step(
            DaemonCommand::ApplyProfile { name },
            status,
        ) == (StepModel::LoadProfile { name: name@, family: family@ }),
        status.product_family is None ==> first_step(DaemonCommand::ApplyProfile { name }, status) == (
        StepModel::LoadProfile { name: name@, family: "facecam"@ }),
        first_step(DaemonCommand::Status, status) == StepModel::Answer(ResponseModel::Status(status)),
        first_step(DaemonCommand::ForceReset, status) is ResetDevice,
        first_step(DaemonCommand::ExportDiagnostics, status) is ExportDiagnostics,
        first_step(DaemonCommand::Shutdown, status) is SignalShutdown,
        first_step(DaemonCommand::RestartPipeline, status) matches StepModel::Publish { update, .. }
            && update is Restart,
{
}

/// A control that is set gets the value under the id of its name, and a control that is read answers
/// with its own name and the value that was read.
pub proof fn controls_are_set_and_read_by_name(
    path: Seq<char>,
    name: Seq<char>,
    value: i64,
    read: i64,
    id: u32,
)
    requires
        v4l2::named_id(name) == Some(id),
    ensures
        ({
            let set = next_step(StepModel::OpenForSet { path, name, value }, StepReply::Done);
            let get = next_step(StepModel::OpenForGet { path, name }, StepReply::Done);
            &&& set == (StepModel::SetControl { id, name, value })
            &&& next_step(set, StepReply::Done) == StepModel::Answer(
                ResponseModel::Success(Some(name + seq!['='] + text::signed_decimal(value as int))),
            )
            &&& get == (StepModel::GetControl { id, name })
            &&& next_step(get, StepReply::Value(read)) == StepModel::Answer(
                ResponseModel::ControlValue { name, value: read },
            )
        }),
{
    reveal_strlit("=");
    assert("="@ =~= seq!['=']);
}

/// What was asked for is answered as it came: the list of controls, the path of the diagnostics.
/// A reset answers whether it succeeded, and the end is answered in any case.
pub proof fn answers_hold_what_came(
    controls: Vec<ControlValue>,
    path: String,
    words: String,
    dev: Seq<char>,
)
    ensures
        next_step(
            next_step(StepModel::OpenForList { path: dev }, StepReply::Done),
            StepReply::Controls(controls),
        ) == StepModel::Answer(ResponseModel::Controls(controls)),
        next_step(StepModel::ExportDiagnostics, StepReply::Exported(path)) == StepModel::Answer(
            ResponseModel::DiagnosticsExported(path@),
        ),
        next_step(StepModel::ResetDevice, StepReply::Done) matches StepModel::Answer(answer)
            && answer is Success,
        next_step(StepModel::ResetDevice, StepReply::Failed(words)) matches StepModel::Answer(answer)
            && answer is Error,
        next_step(StepModel::SignalShutdown, StepReply::Failed(words)) matches StepModel::Answer(
            answer,
        ) && answer is Success,
        next_step(StepModel::SignalShutdown, StepReply::Done) matches StepModel::Answer(answer)
            && answer is Success,
{
}

/// The settings of a profile come in its order: one more control adds its setting at the end, with
/// the id of its name and its value, or nothing where its name is not known.
pub proof fn settings_follow_the_profile(controls: Seq<(String, i64)>, control: (String, i64))
    requires
        i32::MIN <= control.1 <= i32::MAX,
    ensures
        ({
            let before = named_settings(controls);
            let after = named_settings(controls.push(control));
            match v4l2::named_id(control.0@) {
                Some(id) => {
                    &&& after.len() == before.len() + 1
                    &&& after.drop_last() == before
                    &&& after.last().id == id && after.last().value == control.1
                },
                None => after == before,
            }
        }),
        named_settings(Seq::empty()).len() == 0,
{
    assert(controls.push(control).drop_last() =~= controls);
    v4l2::small_values_are_kept(control.1);
    if v4l2::named_id(control.0@) is Some {
        assert(named_settings(controls.push(control)).drop_last() =~= named_settings(controls));
    }
}

/// A profile that was loaded is set on the source that is connected then; the answer counts the
/// settings that were made, and the profile is published under its name before it is answered.
pub proof fn loaded_profiles_are_opened(
    name: Seq<char>,
    family: Seq<char>,
    controls: Vec<(String, i64)>,
    path: String,
    words: String,
    settings: Seq<ControlSetting>,
    applied: nat,
)
    requires
        settings.len() > 0,
    ensures
        next_step(
            StepModel::LoadProfile { name, family },
            StepReply::Loaded { controls, source: Some(path) },
        ) == (StepModel::OpenForProfile {
            path: path@,
            name,
            settings: named_settings(controls@),
        }),
        next_step(
            StepModel::LoadProfile { name, family },
            StepReply::Loaded { controls, source: None },
        ) == StepModel::Answer(ResponseModel::Error("No source device connected"@)),
        next_step(
            StepModel::ApplySetting { name, settings, next: (settings.len() - 1) as nat, applied },
            StepReply::Done,
        ) matches StepModel::Publish { update, answer } && update == UpdateModel::Profile(name)
            && answer == ResponseModel::Success(
            Some(
                "Profile '"@ + name + "' applied ("@ + text::decimal(applied + 1)
                    + " controls set)"@,
            ),
        ),
        next_step(
            StepModel::ApplySetting { name, settings, next: (settings.len() - 1) as nat, applied },
            StepReply::Failed(words),
        ) matches StepModel::Publish { update, answer } && update == UpdateModel::Profile(name)
            && answer == ResponseModel::Success(
            Some("Profile '"@ + name + "' applied ("@ + text::decimal(applied) + " controls set)"@),
        ),
{
}

/// The steps of a command keep paths, names and families apart.
pub proof fn steps_keep_names_and_paths_apart(
    path: String,
    name: String,
    family: String,
    value: i64,
    id: u32,
    settings: Vec<ControlSetting>,
    next: usize,
    applied: u64,
)
    ensures
        (CommandStep::LoadProfile { name, family })@ matches StepModel::LoadProfile {
            name: n,
            family: f,
        } && n == name@ && f == family@,
        (CommandStep::OpenForProfile { path, name, settings })@ matches StepModel::OpenForProfile {
            path: p,
            name: n,
            settings: s,
        } && p == path@ && n == name@ && s == settings@,
        (CommandStep::ApplySetting { name, settings, next, applied })@
            matches StepModel::ApplySetting { name: n, settings: s, next: k, applied: a } && n == name@
            && s == settings@ && k == next && a == applied,
        (CommandStep::OpenForSet { path, name, value })@ matches StepModel::OpenForSet {
            path: p,
            name: n,
            value: v,
        } && p == path@ && n == name@ && v == value,
        (CommandStep::OpenForGet { path, name })@ matches StepModel::OpenForGet { path: p, name: n }
            && p == path@ && n == name@,
        (CommandStep::SetControl { id, name, value })@ matches StepModel::SetControl {
            id: i,
            name: n,
            value: v,
        } && i == id && n == name@ && v == value,
        (CommandStep::GetControl { id, name })@ matches StepModel::GetControl { id: i, name: n } && i
            == id && n == name@,
        (CommandStep::OpenForList { path })@ matches StepModel::OpenForList { path: p } && p == path@,
{
}

/// An answer says what the daemon answered.
pub proof fn answers_say_what_was_answered(name: String, value: i64, words: String, path: String)
    ensures
        (DaemonResponse::ControlValue { name, value })@ matches ResponseModel::ControlValue {
            name: n,
            value: v,
        } && n == name@ && v == value,
        (DaemonResponse::Error(words))@ == ResponseModel::Error(words@),
        (DaemonResponse::Success(Some(words)))@ == ResponseModel::Success(Some(words@)),
        (DaemonResponse::Success(None))@ == ResponseModel::Success(None),
        (DaemonResponse::DiagnosticsExported(path))@ == ResponseModel::DiagnosticsExported(path@),
        update_model(StatusUpdate::Profile(name)) == UpdateModel::Profile(name@),
        update_model(StatusUpdate::Restart) == UpdateModel::Restart,
{
}

} // verus!
