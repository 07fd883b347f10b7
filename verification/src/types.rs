//! The state of the daemon, camera controls and diagnostic events.

use crate::formats::VideoMode;
use crate::text::{self, clone_opt, decimal_text};
use vstd::prelude::*;
use vstd::string::*;

verus! {

/// Overall health status of the camera system
#[derive(Debug, Clone, Copy, PartialEq, Eq, Structural)]
pub enum HealthStatus {
    /// Everything operational
    Healthy,
    /// Degraded but functional
    Degraded,
    /// Not operational
    Unhealthy,
    /// Device not connected
    Disconnected,
}

/// A health status as it appears in reports.
pub open spec fn health_text(health: HealthStatus) -> Seq<char> {
    match health {
        HealthStatus::Healthy => "healthy"@,
        HealthStatus::Degraded => "degraded"@,
        HealthStatus::Unhealthy => "unhealthy"@,
        HealthStatus::Disconnected => "disconnected"@,
    }
}

impl HealthStatus {
    /// The status as it appears in reports.
    pub fn to_text(&self) -> (r: &'static str)
        ensures
            r@ == health_text(*self),
    {
        match self {
            HealthStatus::Healthy => "healthy",
            HealthStatus::Degraded => "degraded",
            HealthStatus::Unhealthy => "unhealthy",
            HealthStatus::Disconnected => "disconnected",
        }
    }
}

/// Pipeline state machine
#[derive(Debug, Clone, Copy, PartialEq, Eq, Structural)]
pub enum PipelineState {
    /// No device detected
    Idle,
    /// Device found, probing capabilities
    Probing,
    /// Attempting to start capture stream
    Starting,
    /// Actively capturing and forwarding frames
    Streaming,
    /// Recovering from error (USB reset in progress)
    Recovering,
    /// Stopped due to unrecoverable error
    Failed,
    /// Graceful shutdown in progress
    ShuttingDown,
}

/// A pipeline state as it appears in reports.
pub open spec fn pipeline_text(state: PipelineState) -> Seq<char> {
    match state {
        PipelineState::Idle => "idle"@,
        PipelineState::Probing => "probing"@,
        PipelineState::Starting => "starting"@,
        PipelineState::Streaming => "streaming"@,
        PipelineState::Recovering => "recovering"@,
        PipelineState::Failed => "failed"@,
        PipelineState::ShuttingDown => "shutting_down"@,
    }
}

impl PipelineState {
    /// The state as it appears in reports.
    pub fn to_text(&self) -> (r: &'static str)
        ensures
            r@ == pipeline_text(*self),
    {
        match self {
            PipelineState::Idle => "idle",
            PipelineState::Probing => "probing",
            PipelineState::Starting => "starting",
            PipelineState::Streaming => "streaming",
            PipelineState::Recovering => "recovering",
            PipelineState::Failed => "failed",
            PipelineState::ShuttingDown => "shutting_down",
        }
    }
}

/// Daemon status snapshot for IPC
#[derive(Debug, Clone)]
pub struct DaemonStatus {
    pub state: PipelineState,
    pub health: HealthStatus,
    pub uptime_secs: u64,
    pub device_connected: bool,
    pub active_mode: Option<VideoMode>,
    pub frames_captured: u64,
    pub frames_written: u64,
    pub frames_dropped: u64,
    pub recovery_count: u32,
    pub last_error: Option<String>,
    pub source_device: Option<String>,
    pub sink_device: Option<String>,
    pub active_profile: Option<String>,
    pub product: Option<String>,
    pub product_family: Option<String>,
}

/// One change to the published status.
#[derive(Debug, Clone)]
pub enum StatusUpdate {
    /// The pipeline enters a state; its health is known.
    State(PipelineState, HealthStatus),
    /// The pipeline is asked to restart: its state changes, its health is left as it is.
    Restart,
    /// The last error.
    LastError(Option<String>),
    /// The device that frames come from.
    Source(Option<String>),
    /// Whether the device is connected.
    Connected(bool),
    /// The mode that is being captured.
    Mode(Option<VideoMode>),
    /// How often the pipeline recovered.
    RecoveryCount(u32),
    /// Frames captured, written and dropped.
    FrameCounts(u64, u64, u64),
    /// The profile whose controls were applied last.
    Profile(String),
}

/// A status after one change: the named fields are replaced, all others stay.
pub open spec fn updated(status: DaemonStatus, update: StatusUpdate) -> DaemonStatus {
    match update {
        StatusUpdate::State(state, health) => DaemonStatus { state, health, ..status },
        StatusUpdate::Restart => DaemonStatus { state: PipelineState::Recovering, ..status },
        StatusUpdate::LastError(last_error) => DaemonStatus { last_error, ..status },
        StatusUpdate::Source(source_device) => DaemonStatus { source_device, ..status },
        StatusUpdate::Connected(device_connected) => DaemonStatus { device_connected, ..status },
        StatusUpdate::Mode(active_mode) => DaemonStatus { active_mode, ..status },
        StatusUpdate::RecoveryCount(recovery_count) => DaemonStatus { recovery_count, ..status },
        StatusUpdate::FrameCounts(frames_captured, frames_written, frames_dropped) => DaemonStatus {
            frames_captured,
            frames_written,
            frames_dropped,
            ..status
        },
        StatusUpdate::Profile(name) => DaemonStatus { active_profile: Some(name), ..status },
    }
}

impl DaemonStatus {
    /// The status before the pipeline has looked for a device.
    pub fn initial(source: Option<String>, sink: String, profile: String) -> (r: Self)
        ensures
            r == (DaemonStatus {
                state: PipelineState::Idle,
                health: HealthStatus::Disconnected,
                uptime_secs: 0,
                device_connected: false,
                active_mode: None,
                frames_captured: 0,
                frames_written: 0,
                frames_dropped: 0,
                recovery_count: 0,
                last_error: None,
                source_device: source,
                sink_device: Some(sink),
                active_profile: Some(profile),
                product: None,
                product_family: None,
            }),
    {
        DaemonStatus {
            state: PipelineState::Idle,
            health: HealthStatus::Disconnected,
            uptime_secs: 0,
            device_connected: false,
            active_mode: None,
            frames_captured: 0,
            frames_written: 0,
            frames_dropped: 0,
            recovery_count: 0,
            last_error: None,
            source_device: source,
            sink_device: Some(sink),
            active_profile: Some(profile),
            product: None,
            product_family: None,
        }
    }

    /// Makes one change.
    pub fn apply(&mut self, update: StatusUpdate)
        ensures
            *final(self) == updated(*old(self), update),
    {
        match update {
            StatusUpdate::State(state, health) => {
                self.state = state;
                self.health = health;
            },
            StatusUpdate::Restart => {
                self.state = PipelineState::Recovering;
            },
            StatusUpdate::LastError(error) => {
                self.last_error = error;
            },
            StatusUpdate::Source(source) => {
                self.source_device = source;
            },
            StatusUpdate::Connected(connected) => {
                self.device_connected = connected;
            },
            StatusUpdate::Mode(mode) => {
                self.active_mode = mode;
            },
            StatusUpdate::RecoveryCount(count) => {
                self.recovery_count = count;
            },
            StatusUpdate::FrameCounts(captured, written, dropped) => {
                self.frames_captured = captured;
                self.frames_written = written;
                self.frames_dropped = dropped;
            },
            StatusUpdate::Profile(name) => {
                self.active_profile = Some(name);
            },
        }
    }

    /// A copy of the status.
    pub fn duplicate(&self) -> (r: Self)
        ensures
            r == *self,
    {
        DaemonStatus {
            state: self.state,
            health: self.health,
            uptime_secs: self.uptime_secs,
            device_connected: self.device_connected,
            active_mode: self.active_mode,
            frames_captured: self.frames_captured,
            frames_written: self.frames_written,
            frames_dropped: self.frames_dropped,
            recovery_count: self.recovery_count,
            last_error: clone_opt(&self.last_error),
            source_device: clone_opt(&self.source_device),
            sink_device: clone_opt(&self.sink_device),
            active_profile: clone_opt(&self.active_profile),
            product: clone_opt(&self.product),
            product_family: clone_opt(&self.product_family),
        }
    }
}

/// V4L2 control value
#[derive(Debug, Clone)]
pub struct ControlValue {
    pub name: String,
    pub id: u32,
    pub control_type: ControlType,
    pub value: i64,
    pub minimum: i64,
    pub maximum: i64,
    pub step: i64,
    pub default: i64,
    pub flags: u32,
    pub menu_items: Vec<MenuItem>,
}

#[derive(Debug, Clone, Copy, PartialEq, Eq, Structural)]
pub enum ControlType {
    Integer,
    Boolean,
    Menu,
    Button,
    Integer64,
    CtrlClass,
    String,
    Bitmask,
    IntegerMenu,
    Unknown(u32),
}

/// The kind of control that a V4L2 type number denotes.
pub open spec fn control_type_of(raw: u32) -> ControlType {
    if raw == 1 {
        ControlType::Integer
    } else if raw == 2 {
        ControlType::Boolean
    } else if raw == 3 {
        ControlType::Menu
    } else if raw == 4 {
        ControlType::Button
    } else if raw == 5 {
        ControlType::Integer64
    } else if raw == 6 {
        ControlType::CtrlClass
    } else if raw == 7 {
        ControlType::String
    } else if raw == 8 {
        ControlType::Bitmask
    } else if raw == 9 {
        ControlType::IntegerMenu
    } else {
        ControlType::Unknown(raw)
    }
}

/// Whether a control offers a menu.
pub open spec fn is_menu(kind: ControlType) -> bool {
    kind == ControlType::Menu || kind == ControlType::IntegerMenu
}

/// A kind of control as it appears in reports.
pub open spec fn control_type_text(kind: ControlType) -> Seq<char> {
    match kind {
        ControlType::Integer => "Integer"@,
        ControlType::Boolean => "Boolean"@,
        ControlType::Menu => "Menu"@,
        ControlType::Button => "Button"@,
        ControlType::Integer64 => "Integer64"@,
        ControlType::CtrlClass => "CtrlClass"@,
        ControlType::String => "String"@,
        ControlType::Bitmask => "Bitmask"@,
        ControlType::IntegerMenu => "IntegerMenu"@,
        ControlType::Unknown(raw) => "Unknown("@ + text::decimal(raw as nat) + ")"@,
    }
}

impl ControlType {
    /// The kind of control that a V4L2 type number denotes.
    pub fn from_raw(raw: u32) -> (r: Self)
        ensures
            r == control_type_of(raw),
    {
        match raw {
            1 => ControlType::Integer,
            2 => ControlType::Boolean,
            3 => ControlType::Menu,
            4 => ControlType::Button,
            5 => ControlType::Integer64,
            6 => ControlType::CtrlClass,
            7 => ControlType::String,
            8 => ControlType::Bitmask,
            9 => ControlType::IntegerMenu,
            other => ControlType::Unknown(other),
        }
    }

    /// Whether the control offers a menu.
    pub fn has_menu(&self) -> (r: bool)
        ensures
            r == is_menu(*self),
    {
        match self {
            ControlType::Menu | ControlType::IntegerMenu => true,
            _ => false,
        }
    }

    /// The kind as it appears in reports.
    pub fn to_text(&self) -> (r: String)
        ensures
            r@ == control_type_text(*self),
    {
        match self {
            ControlType::Integer => "Integer".to_owned(),
            ControlType::Boolean => "Boolean".to_owned(),
            ControlType::Menu => "Menu".to_owned(),
            ControlType::Button => "Button".to_owned(),
            ControlType::Integer64 => "Integer64".to_owned(),
            ControlType::CtrlClass => "CtrlClass".to_owned(),
            ControlType::String => "String".to_owned(),
            ControlType::Bitmask => "Bitmask".to_owned(),
            ControlType::IntegerMenu => "IntegerMenu".to_owned(),
            ControlType::Unknown(raw) => {
                let mut out = "Unknown(".to_owned();
                out.append(decimal_text(*raw as u64).as_str());
                out.append(")");
                out
            },
        }
    }
}

#[derive(Debug, Clone)]
pub struct MenuItem {
    pub index: u32,
    pub name: String,
}

/// A structured event for machine-readable logging
#[derive(Debug, Clone)]
pub struct DiagnosticEvent {
    /// When the event happened, in seconds since the start of 1970.
    pub timestamp_secs: i64,
    pub level: DiagnosticLevel,
    pub category: String,
    pub message: String,
    /// Further details, as a JSON text.
    pub details: String,
}

#[derive(Debug, Clone, Copy, PartialEq, Eq, Structural)]
pub enum DiagnosticLevel {
    Debug,
    Info,
    Warning,
    Error,
    Critical,
}

// ---------------------------------------------------------------------------------------------
// Laws
// ---------------------------------------------------------------------------------------------

/// No change to the status touches the uptime, the sink device or the product.
pub proof fn updates_keep_identity(status: DaemonStatus, update: StatusUpdate)
    ensures
        updated(status, update).uptime_secs == status.uptime_secs,
        updated(status, update).sink_device == status.sink_device,
        updated(status, update).product == status.product,
        updated(status, update).product_family == status.product_family,
{
}

/// Making the same change twice is making it once.
pub proof fn updates_are_idempotent(status: DaemonStatus, update: StatusUpdate)
    ensures
        updated(updated(status, update), update) == updated(status, update),
{
}

/// Different V4L2 type numbers denote different kinds of controls.
pub proof fn control_types_are_distinct(a: u32, b: u32)
    requires
        a != b,
    ensures
        control_type_of(a) != control_type_of(b),
{
}

/// The number by which V4L2 knows a kind of control.
pub open spec fn control_type_number(kind: ControlType) -> u32 {
    match kind {
        ControlType::Integer => 1,
        ControlType::Boolean => 2,
        ControlType::Menu => 3,
        ControlType::Button => 4,
        ControlType::Integer64 => 5,
        ControlType::CtrlClass => 6,
        ControlType::String => 7,
        ControlType::Bitmask => 8,
        ControlType::IntegerMenu => 9,
        ControlType::Unknown(raw) => raw,
    }
}

/// A kind of control keeps the number that it was read from, and the numbers from 1 to 9 are all
/// known.
pub proof fn control_types_keep_their_numbers(raw: u32)
    ensures
        control_type_number(control_type_of(raw)) == raw,
        control_type_of(raw) is Unknown <==> raw == 0 || raw > 9,
        is_menu(control_type_of(raw)) <==> raw == 3 || raw == 9,
{
}

/// A change of the state sets the state and the health, and leaves everything else.
pub proof fn state_changes_set_state_and_health(
    status: DaemonStatus,
    state: PipelineState,
    health: HealthStatus,
)
    ensures
        ({
            let r = updated(status, StatusUpdate::State(state, health));
            &&& r.state == state && r.health == health
            &&& same_device(r, status) && same_counts(r, status) && r.last_error == status.last_error
        }),
{
}

/// Whether two statuses speak of the same devices, mode and profile.
pub open spec fn same_device(a: DaemonStatus, b: DaemonStatus) -> bool {
    a.source_device == b.source_device && a.device_connected == b.device_connected && a.active_mode
        == b.active_mode && a.active_profile == b.active_profile
}

/// Whether two statuses have the same counts.
pub open spec fn same_counts(a: DaemonStatus, b: DaemonStatus) -> bool {
    a.frames_captured == b.frames_captured && a.frames_written == b.frames_written
        && a.frames_dropped == b.frames_dropped && a.recovery_count == b.recovery_count
}

/// Whether two statuses have the same state, health and error.
pub open spec fn same_state(a: DaemonStatus, b: DaemonStatus) -> bool {
    a.state == b.state && a.health == b.health && a.last_error == b.last_error
}

/// A restart that is asked for shows as the state of recovery, and as nothing else.
pub proof fn restarts_show_as_recovery(status: DaemonStatus)
    ensures
        ({
            let r = updated(status, StatusUpdate::Restart);
            &&& r.state is Recovering && r.health == status.health
            &&& same_device(r, status) && same_counts(r, status) && r.last_error == status.last_error
        }),
{
}

/// Frame counts are published each in its own field: captured, written, dropped.
pub proof fn frame_counts_are_published(
    status: DaemonStatus,
    captured: u64,
    written: u64,
    dropped: u64,
    recoveries: u32,
)
    ensures
        ({
            let r = updated(status, StatusUpdate::FrameCounts(captured, written, dropped));
            &&& r.frames_captured == captured && r.frames_written == written && r.frames_dropped
                == dropped && r.recovery_count == status.recovery_count
            &&& same_device(r, status) && same_state(r, status)
        }),
        ({
            let r = updated(status, StatusUpdate::RecoveryCount(recoveries));
            &&& r.recovery_count == recoveries && r.frames_captured == status.frames_captured
                && r.frames_written == status.frames_written && r.frames_dropped
                == status.frames_dropped
            &&& same_device(r, status) && same_state(r, status)
        }),
{
}

/// What is said of the error, the source, the connection, the mode or the profile is published in
/// its own field, and changes no other.
pub proof fn facts_are_published(
    status: DaemonStatus,
    words: Option<String>,
    path: Option<String>,
    connected: bool,
    mode: Option<VideoMode>,
    profile: String,
)
    ensures
        ({
            let r = updated(status, StatusUpdate::LastError(words));
            &&& r.last_error == words && r.state == status.state && r.health == status.health
            &&& same_device(r, status) && same_counts(r, status)
        }),
        ({
            let r = updated(status, StatusUpdate::Source(path));
            &&& r.source_device == path && r.device_connected == status.device_connected
                && r.active_mode == status.active_mode && r.active_profile == status.active_profile
            &&& same_state(r, status) && same_counts(r, status)
        }),
        ({
            let r = updated(status, StatusUpdate::Connected(connected));
            &&& r.device_connected == connected && r.source_device == status.source_device
                && r.active_mode == status.active_mode && r.active_profile == status.active_profile
            &&& same_state(r, status) && same_counts(r, status)
        }),
        ({
            let r = updated(status, StatusUpdate::Mode(mode));
            &&& r.active_mode == mode && r.source_device == status.source_device
                && r.device_connected == status.device_connected && r.active_profile
                == status.active_profile
            &&& same_state(r, status) && same_counts(r, status)
        }),
        ({
            let r = updated(status, StatusUpdate::Profile(profile));
            &&& r.active_profile == Some(profile) && r.source_device == status.source_device
                && r.device_connected == status.device_connected && r.active_mode
                == status.active_mode
            &&& same_state(r, status) && same_counts(r, status)
        }),
{
}

/// Every state has a text that names it and no other.
pub proof fn states_are_told_apart(state: PipelineState, health: HealthStatus)
    ensures
        pipeline_text(state) == "idle"@ <==> state is Idle,
        pipeline_text(state) == "probing"@ <==> state is Probing,
        pipeline_text(state) == "starting"@ <==> state is Starting,
        pipeline_text(state) == "streaming"@ <==> state is Streaming,
        pipeline_text(state) == "recovering"@ <==> state is Recovering,
        pipeline_text(state) == "failed"@ <==> state is Failed,
        pipeline_text(state) == "shutting_down"@ <==> state is ShuttingDown,
        health_text(health) == "healthy"@ <==> health is Healthy,
        health_text(health) == "degraded"@ <==> health is Degraded,
        health_text(health) == "unhealthy"@ <==> health is Unhealthy,
        health_text(health) == "disconnected"@ <==> health is Disconnected,
{
    reveal_strlit("idle");
    reveal_strlit("probing");
    reveal_strlit("starting");
    reveal_strlit("streaming");
    reveal_strlit("recovering");
    reveal_strlit("failed");
    reveal_strlit("shutting_down");
    reveal_strlit("healthy");
    reveal_strlit("degraded");
    reveal_strlit("unhealthy");
    reveal_strlit("disconnected");
    assert("idle"@.len() == 4);
    assert("probing"@.len() == 7);
    assert("starting"@[2] == 'a');
    assert("streaming"@.len() == 9);
    assert("starting"@.len() == 8);
    assert("recovering"@.len() == 10);
    assert("failed"@.len() == 6);
    assert("shutting_down"@.len() == 13);
    assert("healthy"@.len() == 7);
    assert("degraded"@.len() == 8);
    assert("unhealthy"@.len() == 9);
    assert("disconnected"@.len() == 12);
}

/// Only the two kinds of menus have items, and every kind is shown by its own name.
pub proof fn kinds_are_shown_by_name(kind: ControlType)
    ensures
        is_menu(kind) <==> !(kind is Unknown) && (control_type_number(kind) == 3
            || control_type_number(kind) == 9),
        kind matches ControlType::Unknown(raw) ==> control_type_text(kind) == "Unknown("@
            + text::decimal(raw as nat) + ")"@,
        control_type_text(ControlType::Integer) == "Integer"@ && control_type_text(
            ControlType::Boolean,
        ) == "Boolean"@ && control_type_text(ControlType::Menu) == "Menu"@ && control_type_text(
            ControlType::Button,
        ) == "Button"@,
        control_type_text(ControlType::Integer64) == "Integer64"@ && control_type_text(
            ControlType::CtrlClass,
        ) == "CtrlClass"@ && control_type_text(ControlType::String) == "String"@ && control_type_text(
            ControlType::Bitmask,
        ) == "Bitmask"@ && control_type_text(ControlType::IntegerMenu) == "IntegerMenu"@,
{
}

} // verus!
