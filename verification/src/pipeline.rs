//! The way from a connected camera to a running stream.

use crate::bytes::{self, ByteOrder};
use crate::device::{self, DeviceFingerprint, ElgatoProduct, FirmwareVersion, ProductDescriptor};
use crate::formats::{self, PixelFormat, VideoMode};
use crate::profiles::{Profile, ProfileVideoMode};
use crate::quirks::{self, is_format_known_broken};
use crate::seqs;
use crate::text::{self, text_eq};
use crate::types::{HealthStatus, PipelineState, StatusUpdate};
use crate::v4l2::{self, control_field, control_name_to_id};
use vstd::prelude::*;
use vstd::string::*;
use vstd::utf8::*;

verus! {

#[derive(Debug, Clone)]
pub struct PipelineConfig {
    pub source_device: Option<String>,
    pub sink_device: String,
    pub profile_name: String,
    pub max_recovery_attempts: u32,
    pub frame_timeout_ms: u64,
}

// ---------------------------------------------------------------------------------------------
// The source
// ---------------------------------------------------------------------------------------------

/// The link that udev makes to the capture node.
pub const UDEV_LINK: &'static str = "/dev/video-facecam";

/// The message where no source is found.
pub const NO_SOURCE: &'static str =
    "No Elgato UVC capture device found. Use --device /dev/videoN to override.";

/// A device to capture from.
#[derive(Debug, Clone)]
pub struct Source {
    pub path: String,
    pub product: ElgatoProduct,
    pub firmware: FirmwareVersion,
}

/// A device to capture from, with its path as a character sequence.
pub ghost struct SourceModel {
    pub path: Seq<char>,
    pub product: ElgatoProduct,
    pub firmware: FirmwareVersion,
}

impl View for Source {
    type V = SourceModel;

    open spec fn view(&self) -> SourceModel {
        SourceModel { path: self.path@, product: self.product, firmware: self.firmware }
    }
}

/// The firmware version that stands for an unknown one.
pub open spec fn no_firmware() -> FirmwareVersion {
    FirmwareVersion { major: 0, minor: 0 }
}

/// A path of which nothing is known but that it exists: it is taken for an original Facecam.
pub open spec fn assumed_source(path: Seq<char>) -> SourceModel {
    SourceModel { path, product: ElgatoProduct::Facecam, firmware: no_firmware() }
}

/// Whether a camera has its capture node at a path.
pub open spec fn has_node(path: Seq<char>) -> spec_fn(DeviceFingerprint) -> bool {
    |c: DeviceFingerprint| text::opt_view(c.v4l2_device) == Some(path)
}

/// Whether a device is a capture device.
pub open spec fn is_camera() -> spec_fn(DeviceFingerprint) -> bool {
    |c: DeviceFingerprint| device::exposes_uvc_capture(c.product)
}

/// The source, or the message why there is none.
///
/// A path that was asked for has to exist; the product and firmware come from the camera whose
/// node it is, if there is one. Otherwise the first capture device counts, if its node is known,
/// and then the link that udev makes.
pub open spec fn source_of(
    explicit: Option<Seq<char>>,
    explicit_exists: bool,
    cameras: Result<Seq<DeviceFingerprint>, Seq<char>>,
    link_exists: bool,
) -> Result<SourceModel, Seq<char>> {
    match explicit {
        Some(path) => if !explicit_exists {
            Err("Specified source device "@ + path + " does not exist"@)
        } else {
            match cameras {
                Err(words) => Err(words),
                Ok(found) => {
                    let i = seqs::first_index(found, has_node(path));
                    if i < found.len() {
                        Ok(
                            SourceModel {
                                path,
                                product: found[i].product,
                                firmware: found[i].firmware,
                            },
                        )
                    } else {
                        Ok(assumed_source(path))
                    }
                },
            }
        },
        None => match cameras {
            Err(words) => Err(words),
            Ok(found) => {
                let i = seqs::first_index(found, is_camera());
                if i < found.len() && found[i].v4l2_device is Some {
                    Ok(
                        SourceModel {
                            path: found[i].v4l2_device->0@,
                            product: found[i].product,
                            firmware: found[i].firmware,
                        },
                    )
                } else if link_exists {
                    Ok(assumed_source(UDEV_LINK@))
                } else {
                    Err(NO_SOURCE@)
                }
            },
        },
    }
}

/// A result with texts as character sequences.
pub open spec fn source_view(r: Result<Source, String>) -> Result<SourceModel, Seq<char>> {
    match r {
        Ok(source) => Ok(source@),
        Err(words) => Err(words@),
    }
}

/// The cameras of an enumeration, or the words of its error.
pub open spec fn cameras_view(r: Result<Vec<DeviceFingerprint>, String>) -> Result<
    Seq<DeviceFingerprint>,
    Seq<char>,
> {
    match r {
        Ok(found) => Ok(found@),
        Err(words) => Err(words@),
    }
}

/// Finds the source of a pipeline. `explicit` is the path that was asked for, if any, and
/// `explicit_exists` whether it exists; `cameras` are the capture devices, or why they could not
/// be enumerated; `link_exists` is whether the link that udev makes exists.
pub fn detect_source(
    explicit: &Option<String>,
    explicit_exists: bool,
    cameras: &Result<Vec<DeviceFingerprint>, String>,
    link_exists: bool,
) -> (r: Result<Source, String>)
    ensures
        source_view(r) == source_of(
            text::opt_view(*explicit),
            explicit_exists,
            cameras_view(*cameras),
            link_exists,
        ),
{
    if let Some(path) = explicit {
        if !explicit_exists {
            let mut message = "Specified source device ".to_owned();
            message.append(path.as_str());
            message.append(" does not exist");
            return Err(message);
        }
        match cameras {
            Err(words) => Err(words.clone()),
            Ok(found) => {
                let owner = first_with_node(found, path.as_str());
                if owner < found.len() {
                    return Ok(
                        Source {
                            path: path.clone(),
                            product: found[owner].product,
                            firmware: found[owner].firmware,
                        },
                    );
                }
                Ok(
                    Source {
                        path: path.clone(),
                        product: ElgatoProduct::Facecam,
                        firmware: FirmwareVersion { major: 0, minor: 0 },
                    },
                )
            },
        }
    } else {
        match cameras {
            Err(words) => Err(words.clone()),
            Ok(found) => {
                let first = first_camera(found);
                if first < found.len() {
                    if let Some(node) = &found[first].v4l2_device {
                        return Ok(
                            Source {
                                path: node.clone(),
                                product: found[first].product,
                                firmware: found[first].firmware,
                            },
                        );
                    }
                }
                if link_exists {
                    Ok(
                        Source {
                            path: UDEV_LINK.to_owned(),
                            product: ElgatoProduct::Facecam,
                            firmware: FirmwareVersion { major: 0, minor: 0 },
                        },
                    )
                } else {
                    Err(NO_SOURCE.to_owned())
                }
            },
        }
    }
}

fn first_with_node(found: &Vec<DeviceFingerprint>, path: &str) -> (r: usize)
    ensures
        r == seqs::first_index(found@, has_node(path@)),
        r <= found@.len(),
{
    for i in 0..found.len()
        invariant
            forall|j: int| 0 <= j < i ==> !has_node(path@)(#[trigger] found@[j]),
    {
        if let Some(node) = &found[i].v4l2_device {
            if text_eq(node.as_str(), path) {
                proof {
                    seqs::lemma_first_index(found@, has_node(path@), i as int);
                }
                return i;
            }
        }
    }
    proof {
        seqs::lemma_first_index(found@, has_node(path@), found@.len() as int);
    }
    found.len()
}

fn first_camera(found: &Vec<DeviceFingerprint>) -> (r: usize)
    ensures
        r == seqs::first_index(found@, is_camera()),
        r <= found@.len(),
{
    for i in 0..found.len()
        invariant
            forall|j: int| 0 <= j < i ==> !is_camera()(#[trigger] found@[j]),
    {
        if found[i].product.is_uvc_capture() {
            proof {
                seqs::lemma_first_index(found@, is_camera(), i as int);
            }
            return i;
        }
    }
    proof {
        seqs::lemma_first_index(found@, is_camera(), found@.len() as int);
    }
    found.len()
}

// ---------------------------------------------------------------------------------------------
// The mode
// ---------------------------------------------------------------------------------------------

/// Whether a mode has a format that is not known to be broken.
pub open spec fn is_reliable(product: ElgatoProduct, firmware: FirmwareVersion) -> spec_fn(
    VideoMode,
) -> bool {
    |m: VideoMode| !quirks::known_broken(product, firmware, m.format)
}

/// The modes of a device whose formats are not known to be broken, in order.
pub fn reliable_modes(
    modes: &Vec<VideoMode>,
    product: ElgatoProduct,
    firmware: FirmwareVersion,
) -> (r: Vec<VideoMode>)
    ensures
        r@ == modes@.filter(is_reliable(product, firmware)),
{
    let mut out: Vec<VideoMode> = Vec::new();
    let ghost pred = is_reliable(product, firmware);
    proof {
        seqs::lemma_filter_ends(modes@, pred);
    }
    for i in 0..modes.len()
        invariant
            pred == is_reliable(product, firmware),
            out@ == modes@.take(i as int).filter(pred),
    {
        proof {
            seqs::lemma_filter_take(modes@, pred, i as int);
        }
        if !is_format_known_broken(product, firmware, modes[i].format) {
            out.push(modes[i]);
        }
    }
    out
}

/// The format that the text of a profile names: the one whose fourcc code are its four bytes. A
/// text of another length stands for MJPEG.
pub open spec fn format_named(name: Seq<char>) -> PixelFormat {
    let code = encode_utf8(name);
    if code.len() == 4 {
        formats::format_of(bytes::u32_at(ByteOrder::Little, code, 0))
    } else {
        PixelFormat::Mjpeg
    }
}

/// The format that the text of a profile names.
pub fn wanted_format(name: &str) -> (r: PixelFormat)
    ensures
        r == format_named(name@),
{
    let code = name.as_bytes();
    if code.len() == 4 {
        PixelFormat::from_fourcc(bytes::read_u32(ByteOrder::Little, code, 0))
    } else {
        PixelFormat::Mjpeg
    }
}

/// What a profile asks of a mode, with the format as a character sequence.
pub ghost struct WantedMode {
    pub width: u32,
    pub height: u32,
    pub fps: u32,
    pub format: Seq<char>,
}

impl View for ProfileVideoMode {
    type V = WantedMode;

    open spec fn view(&self) -> WantedMode {
        WantedMode {
            width: self.width,
            height: self.height,
            fps: self.fps,
            format: self.format@,
        }
    }
}

/// The view of what a profile may ask for.
pub open spec fn wanted_view(mode: Option<ProfileVideoMode>) -> Option<WantedMode> {
    match mode {
        Some(m) => Some(m@),
        None => None,
    }
}

/// Whether a mode is what a profile asks for: the size, the format, and at least the frame rate,
/// less one frame per second.
pub open spec fn matches_wanted(w: WantedMode) -> spec_fn(VideoMode) -> bool {
    |m: VideoMode|
        m.width == w.width && m.height == w.height && m.format == format_named(w.format)
            && formats::reaches_rate(m, w.fps)
}

/// Whether a mode has the format that a profile asks for.
pub open spec fn matches_format(w: WantedMode) -> spec_fn(VideoMode) -> bool {
    |m: VideoMode| m.format == format_named(w.format)
}

/// The mode to capture in: the first one that is what the profile asks for, else the first one of
/// its format, else the first one. A profile that asks for nothing gets the first one.
pub open spec fn chosen_mode(modes: Seq<VideoMode>, wanted: Option<WantedMode>) -> VideoMode {
    match wanted {
        Some(w) => {
            let exact = seqs::first_index(modes, matches_wanted(w));
            let same = seqs::first_index(modes, matches_format(w));
            if exact < modes.len() {
                modes[exact]
            } else if same < modes.len() {
                modes[same]
            } else {
                modes[0]
            }
        },
        None => modes[0],
    }
}

/// Chooses the mode to capture in.
pub fn target_mode(modes: &Vec<VideoMode>, wanted: &Option<ProfileVideoMode>) -> (r: VideoMode)
    requires
        modes@.len() > 0,
    ensures
        r == chosen_mode(modes@, wanted_view(*wanted)),
{
    if let Some(w) = wanted {
        let exact = first_wanted(modes, w);
        if exact < modes.len() {
            return modes[exact];
        }
        let same = first_of_format(modes, w);
        if same < modes.len() {
            return modes[same];
        }
    }
    modes[0]
}

fn first_wanted(modes: &Vec<VideoMode>, w: &ProfileVideoMode) -> (r: usize)
    ensures
        r == seqs::first_index(modes@, matches_wanted(w@)),
        r <= modes@.len(),
{
    let format = wanted_format(w.format.as_str());
    for i in 0..modes.len()
        invariant
            format == format_named(w.format@),
            forall|j: int| 0 <= j < i ==> !matches_wanted(w@)(#[trigger] modes@[j]),
    {
        let m = modes[i];
        if m.width == w.width && m.height == w.height && m.format == format && m.delivers(w.fps) {
            proof {
                seqs::lemma_first_index(modes@, matches_wanted(w@), i as int);
            }
            return i;
        }
    }
    proof {
        seqs::lemma_first_index(modes@, matches_wanted(w@), modes@.len() as int);
    }
    modes.len()
}

fn first_of_format(modes: &Vec<VideoMode>, w: &ProfileVideoMode) -> (r: usize)
    ensures
        r == seqs::first_index(modes@, matches_format(w@)),
        r <= modes@.len(),
{
    let format = wanted_format(w.format.as_str());
    for i in 0..modes.len()
        invariant
            format == format_named(w.format@),
            forall|j: int| 0 <= j < i ==> !matches_format(w@)(#[trigger] modes@[j]),
    {
        if modes[i].format == format {
            proof {
                seqs::lemma_first_index(modes@, matches_format(w@), i as int);
            }
            return i;
        }
    }
    proof {
        seqs::lemma_first_index(modes@, matches_format(w@), modes@.len() as int);
    }
    modes.len()
}

// ---------------------------------------------------------------------------------------------
// The controls
// ---------------------------------------------------------------------------------------------

/// One control that is to be set.
#[derive(Debug, Clone, Copy, PartialEq, Eq, Structural)]
pub struct ControlSetting {
    pub id: u32,
    pub value: i32,
}

/// The name that a product uses for a control of a profile.
pub open spec fn actual_name(product: ElgatoProduct, name: Seq<char>) -> Seq<char> {
    match device::product_alias(product, name) {
        Some(alias) => alias,
        None => name,
    }
}

/// The setting of one control of a profile, unless its name is not known.
pub open spec fn setting_of(product: ElgatoProduct, control: (String, i64)) -> Option<
    ControlSetting,
> {
    match v4l2::named_id(actual_name(product, control.0@)) {
        Some(id) => Some(ControlSetting { id, value: v4l2::low_half(control.1) }),
        None => None,
    }
}

/// The settings of the controls of a profile, in order. Controls whose names are not known are
/// left out.
pub open spec fn settings_of(product: ElgatoProduct, controls: Seq<(String, i64)>) -> Seq<
    ControlSetting,
>
    decreases controls.len(),
{
    if controls.len() == 0 {
        Seq::empty()
    } else {
        let before = settings_of(product, controls.drop_last());
        match setting_of(product, controls.last()) {
            Some(setting) => before.push(setting),
            None => before,
        }
    }
}

/// The settings that a profile makes on a product.
pub fn control_settings(product: ElgatoProduct, controls: &Vec<(String, i64)>) -> (r: Vec<
    ControlSetting,
>)
    ensures
        r@ == settings_of(product, controls@),
{
    let mut settings: Vec<ControlSetting> = Vec::new();
    for i in 0..controls.len()
        invariant
            settings@ == settings_of(product, controls@.take(i as int)),
    {
        let name = controls[i].0.as_str();
        let value: i64 = controls[i].1;
        let id = match product.control_alias(name) {
            Some(alias) => control_name_to_id(alias),
            None => control_name_to_id(name),
        };
        if let Some(id) = id {
            settings.push(ControlSetting { id, value: control_field(value) });
        }
        proof {
            assert(controls@.take(i + 1).drop_last() =~= controls@.take(i as int));
        }
    }
    proof {
        assert(controls@.take(controls@.len() as int) =~= controls@);
    }
    settings
}

// ---------------------------------------------------------------------------------------------
// The set-up
// ---------------------------------------------------------------------------------------------

/// Where the set-up of a pipeline stands.
#[derive(Debug, Clone)]
pub enum SetupPhase {
    /// The source is to be found.
    Detect,
    /// The source is to be opened.
    OpenSource(Source),
    /// The capabilities of the source are to be asked for.
    QueryCapabilities(Source),
    /// The modes of the source are to be enumerated.
    EnumerateModes(Source),
    /// The profile is to be loaded; these modes are to be chosen from.
    LoadProfile { source: Source, modes: Vec<VideoMode> },
    /// The format of the source is to be set; then come these controls.
    SetSourceFormat { mode: VideoMode, controls: Vec<ControlSetting> },
    /// The control at the position `next` is to be set.
    SetControl { mode: VideoMode, controls: Vec<ControlSetting>, next: usize },
    /// The sink is to be opened.
    OpenSink(VideoMode),
    /// The format of the sink is to be set.
    SetSinkFormat(VideoMode),
    /// The capture session is to be started.
    StartSession(VideoMode),
    /// Frames can be forwarded.
    Streaming(VideoMode),
    /// The set-up failed, with this message.
    Failed(String),
}

/// Where the set-up of a pipeline stands, with texts and lists as sequences.
pub ghost enum SetupModel {
    Detect,
    OpenSource(SourceModel),
    QueryCapabilities(SourceModel),
    EnumerateModes(SourceModel),
    LoadProfile { source: SourceModel, modes: Seq<VideoMode> },
    SetSourceFormat { mode: VideoMode, controls: Seq<ControlSetting> },
    SetControl { mode: VideoMode, controls: Seq<ControlSetting>, next: nat },
    OpenSink(VideoMode),
    SetSinkFormat(VideoMode),
    StartSession(VideoMode),
    Streaming(VideoMode),
    Failed(Seq<char>),
}

impl View for SetupPhase {
    type V = SetupModel;

    open spec fn view(&self) -> SetupModel {
        match *self {
            SetupPhase::Detect => SetupModel::Detect,
            SetupPhase::OpenSource(source) => SetupModel::OpenSource(source@),
            SetupPhase::QueryCapabilities(source) => SetupModel::QueryCapabilities(source@),
            SetupPhase::EnumerateModes(source) => SetupModel::EnumerateModes(source@),
            SetupPhase::LoadProfile { source, modes } => SetupModel::LoadProfile {
                source: source@,
                modes: modes@,
            },
            SetupPhase::SetSourceFormat { mode, controls } => SetupModel::SetSourceFormat {
                mode,
                controls: controls@,
            },
            SetupPhase::SetControl { mode, controls, next } => SetupModel::SetControl {
                mode,
                controls: controls@,
                next: next as nat,
            },
            SetupPhase::OpenSink(mode) => SetupModel::OpenSink(mode),
            SetupPhase::SetSinkFormat(mode) => SetupModel::SetSinkFormat(mode),
            SetupPhase::StartSession(mode) => SetupModel::StartSession(mode),
            SetupPhase::Streaming(mode) => SetupModel::Streaming(mode),
            SetupPhase::Failed(message) => SetupModel::Failed(message@),
        }
    }
}

/// What came of a step of the set-up.
#[derive(Debug)]
pub enum SetupReply {
    /// The source was found, or why not.
    Detected(Result<Source, String>),
    /// The step succeeded.
    Done,
    /// The capabilities of the source.
    Capabilities { has_capture: bool, has_streaming: bool },
    /// The modes of the source.
    Modes(Vec<VideoMode>),
    /// The profile.
    Loaded(Profile),
    /// The step failed; the words of the error.
    Failed(String),
}

/// The phase after the mode is set: the controls, as far as there are any left, then the sink.
pub open spec fn controls_from(mode: VideoMode, controls: Seq<ControlSetting>, next: nat) -> SetupModel {
    if next < controls.len() {
        SetupModel::SetControl { mode, controls, next }
    } else {
        SetupModel::OpenSink(mode)
    }
}

/// The phase after a profile was loaded, or nothing is known of it.
pub open spec fn with_profile(
    source: SourceModel,
    modes: Seq<VideoMode>,
    wanted: Option<WantedMode>,
    controls: Seq<(String, i64)>,
) -> SetupModel {
    SetupModel::SetSourceFormat {
        mode: chosen_mode(modes, wanted),
        controls: settings_of(source.product, controls),
    }
}

/// The phase after a step. An answer that does not belong to the step changes nothing.
pub open spec fn after_setup(phase: SetupModel, reply: SetupReply) -> SetupModel {
    match phase {
        SetupModel::Detect => match reply {
            SetupReply::Detected(Ok(source)) => SetupModel::OpenSource(source@),
            SetupReply::Detected(Err(words)) => SetupModel::Failed(words@),
            _ => phase,
        },
        SetupModel::OpenSource(source) => match reply {
            SetupReply::Done => SetupModel::QueryCapabilities(source),
            SetupReply::Failed(_) => SetupModel::Failed(
                "Failed to open "@ + device::product_text(source.product) + " ("@ + source.path
                    + ")"@,
            ),
            _ => phase,
        },
        SetupModel::QueryCapabilities(source) => match reply {
            SetupReply::Capabilities { has_capture, has_streaming } => if !has_capture {
                SetupModel::Failed(
                    device::product_text(source.product) + " does not advertise VIDEO_CAPTURE"@,
                )
            } else if !has_streaming {
                SetupModel::Failed(
                    device::product_text(source.product)
                        + " does not advertise STREAMING (MMAP unsupported)"@,
                )
            } else {
                SetupModel::EnumerateModes(source)
            },
            SetupReply::Failed(_) => SetupModel::Failed(
                "Failed to query capabilities of "@ + device::product_text(source.product),
            ),
            _ => phase,
        },
        SetupModel::EnumerateModes(source) => match reply {
            SetupReply::Modes(all) => {
                let modes = all@.filter(is_reliable(source.product, source.firmware));
                if modes.len() == 0 {
                    SetupModel::Failed(
                        "No usable video modes for "@ + device::product_text(source.product)
                            + " (all formats marked broken in quirk DB)"@,
                    )
                } else {
                    SetupModel::LoadProfile { source, modes }
                }
            },
            SetupReply::Failed(words) => SetupModel::Failed(words@),
            _ => phase,
        },
        SetupModel::LoadProfile { source, modes } => match reply {
            SetupReply::Loaded(profile) => with_profile(
                source,
                modes,
                wanted_view(profile.video_mode),
                profile.controls@,
            ),
            SetupReply::Failed(_) => with_profile(source, modes, None, Seq::empty()),
            _ => phase,
        },
        SetupModel::SetSourceFormat { mode, controls } => match reply {
            SetupReply::Done => controls_from(mode, controls, 0),
            SetupReply::Failed(_) => SetupModel::Failed("Failed to set source format"@),
            _ => phase,
        },
        SetupModel::SetControl { mode, controls, next } => match reply {
            SetupReply::Done | SetupReply::Failed(_) => controls_from(mode, controls, next + 1),
            _ => phase,
        },
        SetupModel::OpenSink(mode) => match reply {
            SetupReply::Done => SetupModel::SetSinkFormat(mode),
            SetupReply::Failed(_) => SetupModel::Failed(
                "Failed to open sink device. Is v4l2loopback loaded?"@,
            ),
            _ => phase,
        },
        SetupModel::SetSinkFormat(mode) => match reply {
            SetupReply::Done => SetupModel::StartSession(mode),
            SetupReply::Failed(_) => SetupModel::Failed("Failed to set sink output format"@),
            _ => phase,
        },
        SetupModel::StartSession(mode) => match reply {
            SetupReply::Done => SetupModel::Streaming(mode),
            SetupReply::Failed(words) => SetupModel::Failed(words@),
            _ => phase,
        },
        SetupModel::Streaming(_) => phase,
        SetupModel::Failed(_) => phase,
    }
}

/// Whether a phase can be reached: there is a mode to choose, and a control to set.
pub open spec fn setup_ok(phase: SetupModel) -> bool {
    match phase {
        SetupModel::LoadProfile { modes, .. } => modes.len() > 0,
        SetupModel::SetControl { controls, next, .. } => next < controls.len(),
        _ => true,
    }
}

/// What is published when a phase is entered, before its step is made.
pub open spec fn announced(phase: SetupPhase) -> Seq<StatusUpdate> {
    match phase {
        SetupPhase::Detect => seq![
            StatusUpdate::State(PipelineState::Probing, HealthStatus::Degraded),
        ],
        SetupPhase::OpenSource(source) => seq![StatusUpdate::Source(Some(source.path))],
        SetupPhase::OpenSink(_) => seq![
            StatusUpdate::State(PipelineState::Starting, HealthStatus::Degraded),
        ],
        SetupPhase::StartSession(mode) => seq![
            StatusUpdate::State(PipelineState::Streaming, HealthStatus::Healthy),
            StatusUpdate::Mode(Some(mode)),
            StatusUpdate::Connected(true),
        ],
        _ => Seq::empty(),
    }
}

fn joined3(a: &str, b: &str, c: &str) -> (r: String)
    ensures
        r@ == a@ + b@ + c@,
{
    let mut out = a.to_owned();
    out.append(b);
    out.append(c);
    out
}

fn controls_phase(mode: VideoMode, controls: Vec<ControlSetting>, next: usize) -> (r: SetupPhase)
    ensures
        r@ == controls_from(mode, controls@, next as nat),
{
    if next < controls.len() {
        SetupPhase::SetControl { mode, controls, next }
    } else {
        SetupPhase::OpenSink(mode)
    }
}

impl SetupPhase {
    /// The first phase.
    pub fn start() -> (r: Self)
        ensures
            r@ is Detect,
            setup_ok(r@),
    {
        SetupPhase::Detect
    }

    /// What is to be published before the step of this phase is made.
    pub fn announcements(&self) -> (r: Vec<StatusUpdate>)
        ensures
            r@ == announced(*self),
    {
        let mut out: Vec<StatusUpdate> = Vec::new();
        match self {
            SetupPhase::Detect => {
                out.push(StatusUpdate::State(PipelineState::Probing, HealthStatus::Degraded));
            },
            SetupPhase::OpenSource(source) => {
                out.push(StatusUpdate::Source(Some(source.path.clone())));
            },
            SetupPhase::OpenSink(_) => {
                out.push(StatusUpdate::State(PipelineState::Starting, HealthStatus::Degraded));
            },
            SetupPhase::StartSession(mode) => {
                out.push(StatusUpdate::State(PipelineState::Streaming, HealthStatus::Healthy));
                out.push(StatusUpdate::Mode(Some(*mode)));
                out.push(StatusUpdate::Connected(true));
            },
            _ => {},
        }
        proof {
            assert(out@ =~= announced(*self));
        }
        out
    }

    /// Takes what came of the step.
    pub fn reply(self, reply: SetupReply) -> (r: Self)
        requires
            setup_ok(self@),
        ensures
            r@ == after_setup(self@, reply),
            setup_ok(r@),
    {
        match self {
            SetupPhase::Detect => match reply {
                SetupReply::Detected(Ok(source)) => SetupPhase::OpenSource(source),
                SetupReply::Detected(Err(words)) => SetupPhase::Failed(words),
                _ => SetupPhase::Detect,
            },
            SetupPhase::OpenSource(source) => match reply {
                SetupReply::Done => SetupPhase::QueryCapabilities(source),
                SetupReply::Failed(_) => {
                    let mut message = joined3(
                        "Failed to open ",
                        source.product.to_text().as_str(),
                        " (",
                    );
                    message.append(source.path.as_str());
                    message.append(")");
                    SetupPhase::Failed(message)
                },
                _ => SetupPhase::OpenSource(source),
            },
            SetupPhase::QueryCapabilities(source) => match reply {
                SetupReply::Capabilities { has_capture, has_streaming } => {
                    let mut message = source.product.to_text();
                    if !has_capture {
                        message.append(" does not advertise VIDEO_CAPTURE");
                        SetupPhase::Failed(message)
                    } else if !has_streaming {
                        message.append(" does not advertise STREAMING (MMAP unsupported)");
                        SetupPhase::Failed(message)
                    } else {
                        SetupPhase::EnumerateModes(source)
                    }
                },
                SetupReply::Failed(_) => {
                    let mut message = "Failed to query capabilities of ".to_owned();
                    message.append(source.product.to_text().as_str());
                    SetupPhase::Failed(message)
                },
                _ => SetupPhase::QueryCapabilities(source),
            },
            SetupPhase::EnumerateModes(source) => match reply {
                SetupReply::Modes(all) => {
                    let modes = reliable_modes(&all, source.product, source.firmware);
                    if modes.len() == 0 {
                        SetupPhase::Failed(
                            joined3(
                                "No usable video modes for ",
                                source.product.to_text().as_str(),
                                " (all formats marked broken in quirk DB)",
                            ),
                        )
                    } else {
                        SetupPhase::LoadProfile { source, modes }
                    }
                },
                SetupReply::Failed(words) => SetupPhase::Failed(words),
                _ => SetupPhase::EnumerateModes(source),
            },
            SetupPhase::LoadProfile { source, modes } => match reply {
                SetupReply::Loaded(profile) => SetupPhase::SetSourceFormat {
                    mode: target_mode(&modes, &profile.video_mode),
                    controls: control_settings(source.product, &profile.controls),
                },
                SetupReply::Failed(_) => {
                    let profile = Profile::fallback();
                    let controls = control_settings(source.product, &profile.controls);
                    proof {
                        assert(profile.controls@ =~= Seq::empty());
                    }
                    SetupPhase::SetSourceFormat {
                        mode: target_mode(&modes, &profile.video_mode),
                        controls,
                    }
                },
                _ => SetupPhase::LoadProfile { source, modes },
            },
            SetupPhase::SetSourceFormat { mode, controls } => match reply {
                SetupReply::Done => controls_phase(mode, controls, 0),
                SetupReply::Failed(_) => SetupPhase::Failed(
                    "Failed to set source format".to_owned(),
                ),
                _ => SetupPhase::SetSourceFormat { mode, controls },
            },
            SetupPhase::SetControl { mode, controls, next } => match reply {
                SetupReply::Done | SetupReply::Failed(_) => {
                    let count: usize = controls.len();
                    assert(next < count);
                    controls_phase(mode, controls, next + 1)
                },
                _ => SetupPhase::SetControl { mode, controls, next },
            },
            SetupPhase::OpenSink(mode) => match reply {
                SetupReply::Done => SetupPhase::SetSinkFormat(mode),
                SetupReply::Failed(_) => SetupPhase::Failed(
                    "Failed to open sink device. Is v4l2loopback loaded?".to_owned(),
                ),
                _ => SetupPhase::OpenSink(mode),
            },
            SetupPhase::SetSinkFormat(mode) => match reply {
                SetupReply::Done => SetupPhase::StartSession(mode),
                SetupReply::Failed(_) => SetupPhase::Failed(
                    "Failed to set sink output format".to_owned(),
                ),
                _ => SetupPhase::SetSinkFormat(mode),
            },
            SetupPhase::StartSession(mode) => match reply {
                SetupReply::Done => SetupPhase::Streaming(mode),
                SetupReply::Failed(words) => SetupPhase::Failed(words),
                _ => SetupPhase::StartSession(mode),
            },
            SetupPhase::Streaming(mode) => SetupPhase::Streaming(mode),
            SetupPhase::Failed(message) => SetupPhase::Failed(message),
        }
    }
}

// ---------------------------------------------------------------------------------------------
// Laws
// ---------------------------------------------------------------------------------------------

/// The chosen mode is one of the modes to choose from.
pub proof fn chosen_mode_is_offered(modes: Seq<VideoMode>, wanted: Option<WantedMode>)
    requires
        modes.len() > 0,
    ensures
        modes.contains(chosen_mode(modes, wanted)),
{
    if let Some(w) = wanted {
        seqs::lemma_first_index_is_first(modes, matches_wanted(w));
        seqs::lemma_first_index_is_first(modes, matches_format(w));
    }
    assert(modes[0] == modes[0]);
}

/// A format that is known to be broken is never captured, whatever the profile asks for.
pub proof fn broken_formats_are_never_chosen(
    all: Seq<VideoMode>,
    product: ElgatoProduct,
    firmware: FirmwareVersion,
    wanted: Option<WantedMode>,
)
    requires
        all.filter(is_reliable(product, firmware)).len() > 0,
    ensures
        ({
            let mode = chosen_mode(all.filter(is_reliable(product, firmware)), wanted);
            all.contains(mode) && !quirks::known_broken(product, firmware, mode.format)
        }),
{
    let modes = all.filter(is_reliable(product, firmware));
    chosen_mode_is_offered(modes, wanted);
    let mode = chosen_mode(modes, wanted);
    let i = choose|i: int| 0 <= i < modes.len() && modes[i] == mode;
    seqs::lemma_filter_source(all, is_reliable(product, firmware), i);
}

/// Where a mode that the profile asks for is offered, one such mode is chosen; where only its
/// format is offered, a mode of this format is.
pub proof fn profiles_get_what_is_offered(modes: Seq<VideoMode>, w: WantedMode, i: int)
    requires
        0 <= i < modes.len(),
    ensures
        matches_wanted(w)(modes[i]) ==> matches_wanted(w)(chosen_mode(modes, Some(w))),
        matches_format(w)(modes[i]) ==> matches_format(w)(chosen_mode(modes, Some(w))),
{
    seqs::lemma_first_index_is_first(modes, matches_wanted(w));
    seqs::lemma_first_index_is_first(modes, matches_format(w));
}

/// The source of a pipeline is always a capture device, where one is found on the bus and none was
/// asked for; and a path that was asked for is the path that is used.
pub proof fn sources_are_what_was_asked_for(
    explicit: Option<Seq<char>>,
    explicit_exists: bool,
    found: Seq<DeviceFingerprint>,
    link_exists: bool,
)
    ensures
        source_of(explicit, explicit_exists, Ok(found), link_exists) matches Ok(source) ==> {
            &&& explicit matches Some(path) ==> source.path == path && explicit_exists
            &&& explicit is None ==> device::exposes_uvc_capture(source.product)
        },
{
    seqs::lemma_first_index_is_first(found, is_camera());
}

/// The mode that a phase of the set-up works with.
pub open spec fn mode_of(phase: SetupModel) -> Option<VideoMode> {
    match phase {
        SetupModel::SetSourceFormat { mode, .. } => Some(mode),
        SetupModel::SetControl { mode, .. } => Some(mode),
        SetupModel::OpenSink(mode) => Some(mode),
        SetupModel::SetSinkFormat(mode) => Some(mode),
        SetupModel::StartSession(mode) => Some(mode),
        SetupModel::Streaming(mode) => Some(mode),
        _ => None,
    }
}

/// Once chosen, the mode never changes: source, sink and session are set up with the same one.
pub proof fn one_mode_for_source_and_sink(phase: SetupModel, reply: SetupReply)
    requires
        mode_of(phase) is Some,
    ensures
        after_setup(phase, reply) is Failed || mode_of(after_setup(phase, reply)) == mode_of(phase),
{
}

/// A control that cannot be set does not stop the set-up: the next one follows, as if it had been
/// set.
pub proof fn failed_controls_are_skipped(phase: SetupModel, words: String)
    requires
        phase is SetControl,
    ensures
        after_setup(phase, SetupReply::Failed(words)) == after_setup(phase, SetupReply::Done),
        !(after_setup(phase, SetupReply::Failed(words)) is Failed),
{
}

/// A set-up that failed or that is done stays so.
pub proof fn finished_setup_stays(phase: SetupModel, reply: SetupReply)
    requires
        phase is Failed || phase is Streaming,
    ensures
        after_setup(phase, reply) == phase,
{
}

/// The phase after `n` controls were set or skipped.
pub open spec fn after_controls(phase: SetupModel, n: nat) -> SetupModel
    decreases n,
{
    if n == 0 {
        phase
    } else {
        after_setup(after_controls(phase, (n - 1) as nat), SetupReply::Done)
    }
}

proof fn lemma_controls(mode: VideoMode, controls: Seq<ControlSetting>, n: nat)
    requires
        n <= controls.len(),
    ensures
        after_controls(controls_from(mode, controls, 0), n) == controls_from(mode, controls, n),
    decreases n,
{
    if n > 0 {
        lemma_controls(mode, controls, (n - 1) as nat);
    }
}

/// A set-up in which every step succeeds streams the mode that was chosen among the modes whose
/// formats are not known to be broken.
pub proof fn successful_setup_streams(source: Source, all: Vec<VideoMode>, profile: Profile)
    requires
        all@.filter(is_reliable(source.product, source.firmware)).len() > 0,
    ensures
        ({
            let p1 = after_setup(SetupModel::Detect, SetupReply::Detected(Ok(source)));
            let p2 = after_setup(p1, SetupReply::Done);
            let p3 = after_setup(
                p2,
                SetupReply::Capabilities { has_capture: true, has_streaming: true },
            );
            let p4 = after_setup(p3, SetupReply::Modes(all));
            let p5 = after_setup(p4, SetupReply::Loaded(profile));
            let p6 = after_setup(p5, SetupReply::Done);
            let p7 = after_controls(p6, settings_of(source.product, profile.controls@).len());
            let p8 = after_setup(p7, SetupReply::Done);
            let p9 = after_setup(p8, SetupReply::Done);
            after_setup(p9, SetupReply::Done) == SetupModel::Streaming(
                chosen_mode(
                    all@.filter(is_reliable(source.product, source.firmware)),
                    wanted_view(profile.video_mode),
                ),
            )
        }),
{
    let modes = all@.filter(is_reliable(source.product, source.firmware));
    let mode = chosen_mode(modes, wanted_view(profile.video_mode));
    let controls = settings_of(source.product, profile.controls@);
    lemma_controls(mode, controls, controls.len());
}

/// The name that a product uses for a control of a profile denotes the same control as the name in
/// the profile.
pub proof fn aliases_name_the_same_control(product: ElgatoProduct, generic: Seq<char>)
    requires
        device::product_alias(product, generic) is Some,
    ensures
        v4l2::named_id(device::product_alias(product, generic)->0) == v4l2::named_id(generic),
        v4l2::named_id(generic) is Some,
{
    v4l2::renamed_controls_have_ids();
}

/// A control of a profile whose name has an id is set on every product, and it is the control with
/// this id.
pub proof fn named_controls_are_set_on_every_product(product: ElgatoProduct, control: (String, i64))
    ensures
        setting_of(product, control) == match v4l2::named_id(control.0@) {
            Some(id) => Some(ControlSetting { id, value: v4l2::low_half(control.1) }),
            None => None,
        },
{
    if device::product_alias(product, control.0@) is Some {
        aliases_name_the_same_control(product, control.0@);
    }
}

/// Whether a format is the one that four letters name: its fourcc code has these letters as its
/// bytes, the first one lowest. A name that has not four bytes stands for MJPEG.
pub open spec fn is_format_called(format: PixelFormat, name: Seq<char>) -> bool {
    let code = encode_utf8(name);
    if code.len() == 4 {
        formats::fourcc_of(format) as int == code[0] as int + 0x100 * code[1] as int + 0x1_0000
            * code[2] as int + 0x100_0000 * code[3] as int && formats::format_of(
            formats::fourcc_of(format),
        ) == format
    } else {
        format == PixelFormat::Mjpeg
    }
}

proof fn lemma_format_called(format: PixelFormat, name: Seq<char>)
    ensures
        is_format_called(format, name) <==> format == format_named(name),
{
    let code = encode_utf8(name);
    if code.len() == 4 {
        bytes::bytes_have_their_weight(code, 0);
        let number = bytes::u32_at(ByteOrder::Little, code, 0);
        formats::fourcc_round_trip(number);
    }
}

/// Whether a mode brings at least one frame per second less than so many: a frame takes
/// `fps_numerator / fps_denominator` seconds.
pub open spec fn brings_nearly(mode: VideoMode, fps: u32) -> bool {
    if mode.fps_numerator == 0 {
        fps <= 1
    } else {
        mode.fps_denominator >= (fps - 1) * mode.fps_numerator
    }
}

/// The profile gets the mode that it names. Where a mode of exactly its width, its height, its format
/// and nearly its frame rate is offered, the chosen mode has exactly this width, this height, this
/// format and nearly this rate, and it is the first one that has.
pub proof fn profiles_get_the_mode_they_name(
    modes: Seq<VideoMode>,
    profile: ProfileVideoMode,
    i: int,
)
    requires
        0 <= i < modes.len(),
        modes[i].width == profile.width,
        modes[i].height == profile.height,
        is_format_called(modes[i].format, profile.format@),
        brings_nearly(modes[i], profile.fps),
    ensures
        ({
            let mode = chosen_mode(modes, wanted_view(Some(profile)));
            &&& mode.width == profile.width
            &&& mode.height == profile.height
            &&& is_format_called(mode.format, profile.format@)
            &&& brings_nearly(mode, profile.fps)
            &&& exists|j: int|
                0 <= j <= i && #[trigger] modes[j] == mode && forall|k: int|
                    0 <= k < j ==> !((#[trigger] modes[k]).width == profile.width && modes[k].height
                        == profile.height && is_format_called(modes[k].format, profile.format@)
                        && brings_nearly(modes[k], profile.fps))
        }),
{
    let w = profile@;
    assert forall|k: int| 0 <= k < modes.len() implies matches_wanted(w)(#[trigger] modes[k]) == (
    modes[k].width == profile.width && modes[k].height == profile.height && is_format_called(
        modes[k].format,
        profile.format@,
    ) && brings_nearly(modes[k], profile.fps)) by {
        lemma_format_called(modes[k].format, profile.format@);
    }
    seqs::lemma_first_index_is_first(modes, matches_wanted(w));
    let j = seqs::first_index(modes, matches_wanted(w));
    assert(matches_wanted(w)(modes[i]));
    assert(modes[j] == chosen_mode(modes, wanted_view(Some(profile))));
}

/// Where no mode that the profile names is offered, the first mode of its format is chosen; where not
/// even its format is offered, the first mode is, and so it is for a profile that names none.
pub proof fn profiles_fall_back_to_their_format(modes: Seq<VideoMode>, profile: ProfileVideoMode)
    requires
        modes.len() > 0,
        forall|k: int|
            0 <= k < modes.len() ==> !((#[trigger] modes[k]).width == profile.width
                && modes[k].height == profile.height && is_format_called(
                modes[k].format,
                profile.format@,
            ) && brings_nearly(modes[k], profile.fps)),
    ensures
        ({
            let mode = chosen_mode(modes, wanted_view(Some(profile)));
            if exists|i: int|
                0 <= i < modes.len() && is_format_called((#[trigger] modes[i]).format, profile.format@) {
                exists|j: int|
                    0 <= j < modes.len() && #[trigger] modes[j] == mode && is_format_called(
                        mode.format,
                        profile.format@,
                    ) && forall|k: int|
                        0 <= k < j ==> !is_format_called(
                            (#[trigger] modes[k]).format,
                            profile.format@,
                        )
            } else {
                mode == modes[0]
            }
        }),
        chosen_mode(modes, None) == modes[0],
{
    let w = profile@;
    assert forall|k: int| 0 <= k < modes.len() implies !matches_wanted(w)(#[trigger] modes[k])
        && matches_format(w)(modes[k]) == is_format_called(modes[k].format, profile.format@) by {
        lemma_format_called(modes[k].format, profile.format@);
    }
    seqs::lemma_first_index_is_first(modes, matches_wanted(w));
    seqs::lemma_first_index_is_first(modes, matches_format(w));
    let mode = chosen_mode(modes, wanted_view(Some(profile)));
    let j = seqs::first_index(modes, matches_format(w));
    if j < modes.len() {
        assert(modes[j] == mode);
    }
}

/// Where no path is asked for and the first capture device on the bus has a known node, the source
/// that is detected has the node, the product and the firmware of this device.
pub proof fn the_first_camera_is_the_source(
    r: Result<Source, String>,
    found: Vec<DeviceFingerprint>,
    i: int,
    explicit_exists: bool,
    link_exists: bool,
)
    requires
        source_view(r) == source_of(None, explicit_exists, cameras_view(Ok(found)), link_exists),
        0 <= i < found@.len(),
        device::exposes_uvc_capture(found@[i].product),
        forall|k: int|
            0 <= k < i ==> !device::exposes_uvc_capture((#[trigger] found@[k]).product),
        found@[i].v4l2_device is Some,
    ensures
        r matches Ok(source) && source.path@ == found@[i].v4l2_device->0@ && source.product
            == found@[i].product && source.firmware == found@[i].firmware,
{
    seqs::lemma_first_index(found@, is_camera(), i);
}

/// Where there is no capture device on the bus, or the node of the first one is not known, the link
/// that udev makes is the source, as an original Facecam of unknown firmware, if it exists; otherwise
/// there is none.
pub proof fn the_link_is_the_last_resort(
    r: Result<Source, String>,
    found: Vec<DeviceFingerprint>,
    i: int,
    explicit_exists: bool,
    link_exists: bool,
)
    requires
        source_view(r) == source_of(None, explicit_exists, cameras_view(Ok(found)), link_exists),
        0 <= i <= found@.len(),
        forall|k: int|
            0 <= k < i ==> !device::exposes_uvc_capture((#[trigger] found@[k]).product),
        i < found@.len() ==> device::exposes_uvc_capture(found@[i].product) && found@[i].v4l2_device
            is None,
    ensures
        link_exists ==> (r matches Ok(source) && source.path@ == "/dev/video-facecam"@
            && source.product == ElgatoProduct::Facecam && source.firmware == (FirmwareVersion {
            major: 0,
            minor: 0,
        })),
        !link_exists ==> r is Err,
{
    seqs::lemma_first_index(found@, is_camera(), i);
}

/// A path that was asked for and exists is the source. Its product and its firmware are those of the
/// first camera whose node it is; a path of no camera is taken for an original Facecam of unknown
/// firmware.
pub proof fn asked_paths_belong_to_their_camera(
    r: Result<Source, String>,
    path: Seq<char>,
    found: Vec<DeviceFingerprint>,
    i: int,
    link_exists: bool,
)
    requires
        source_view(r) == source_of(Some(path), true, cameras_view(Ok(found)), link_exists),
        0 <= i <= found@.len(),
        forall|k: int|
            0 <= k < i ==> !((#[trigger] found@[k]).v4l2_device matches Some(node) && node@ == path),
        i < found@.len() ==> (found@[i].v4l2_device matches Some(node) && node@ == path),
    ensures
        r matches Ok(source) && source.path@ == path && if i < found@.len() {
            source.product == found@[i].product && source.firmware == found@[i].firmware
        } else {
            source.product == ElgatoProduct::Facecam && source.firmware == (FirmwareVersion {
                major: 0,
                minor: 0,
            })
        },
{
    seqs::lemma_first_index(found@, has_node(path), i);
}

/// There is no source where the path that was asked for does not exist, and none where the cameras
/// cannot be enumerated: then the words of this error are given.
pub proof fn sources_need_path_and_cameras(
    r: Result<Source, String>,
    asked: Option<Seq<char>>,
    explicit_exists: bool,
    cameras: Result<Vec<DeviceFingerprint>, String>,
    link_exists: bool,
)
    requires
        source_view(r) == source_of(asked, explicit_exists, cameras_view(cameras), link_exists),
    ensures
        asked is Some && !explicit_exists ==> r is Err,
        cameras is Err && (asked is None || explicit_exists) ==> (r matches Err(words) && words@
            == cameras->Err_0@),
{
}

/// The modes to choose from are those of the device, in order, without the formats that are broken on
/// the product: NV12 and YU12 on the original Facecam, and none on any other product.
pub proof fn only_broken_formats_are_left_out(
    all: Seq<VideoMode>,
    product: ElgatoProduct,
    firmware: FirmwareVersion,
    mode: VideoMode,
)
    ensures
        all.filter(is_reliable(product, firmware)).contains(mode) <==> all.contains(mode) && !(product
            == ElgatoProduct::Facecam && (mode.format == PixelFormat::Nv12 || mode.format
            == PixelFormat::Yu12)),
        product != ElgatoProduct::Facecam ==> all.filter(is_reliable(product, firmware)) == all,
{
    let pred = is_reliable(product, firmware);
    quirks::broken_formats(product, firmware, mode.format);
    let kept = all.filter(pred);
    if kept.contains(mode) {
        let i = choose|i: int| 0 <= i < kept.len() && kept[i] == mode;
        seqs::lemma_filter_source(all, pred, i);
    }
    if all.contains(mode) && pred(mode) {
        let i = choose|i: int| 0 <= i < all.len() && all[i] == mode;
        seqs::lemma_filter_keeps(all, pred, i);
    }
    if product != ElgatoProduct::Facecam {
        lemma_all_kept(all, product, firmware);
    }
}

proof fn lemma_all_kept(all: Seq<VideoMode>, product: ElgatoProduct, firmware: FirmwareVersion)
    requires
        product != ElgatoProduct::Facecam,
    ensures
        all.filter(is_reliable(product, firmware)) == all,
    decreases all.len(),
{
    reveal(Seq::filter);
    if all.len() > 0 {
        lemma_all_kept(all.drop_last(), product, firmware);
        quirks::broken_formats(product, firmware, all.last().format);
        assert(all.drop_last().push(all.last()) =~= all);
    } else {
        assert(all =~= Seq::empty());
    }
}

/// The settings of a profile come in its order: one more control adds its setting at the end, with
/// the id of its name and its value, or nothing where its name is not known.
pub proof fn settings_follow_the_profile(
    product: ElgatoProduct,
    controls: Seq<(String, i64)>,
    control: (String, i64),
)
    requires
        i32::MIN <= control.1 <= i32::MAX,
    ensures
        ({
            let before = settings_of(product, controls);
            let after = settings_of(product, controls.push(control));
            match v4l2::named_id(control.0@) {
                Some(id) => {
                    &&& after.len() == before.len() + 1
                    &&& after.drop_last() == before
                    &&& after.last().id == id && after.last().value == control.1
                },
                None => after == before,
            }
        }),
        settings_of(product, Seq::empty()).len() == 0,
{
    assert(controls.push(control).drop_last() =~= controls);
    named_controls_are_set_on_every_product(product, control);
    v4l2::small_values_are_kept(control.1);
    if v4l2::named_id(control.0@) is Some {
        assert(settings_of(product, controls.push(control)).drop_last() =~= settings_of(
            product,
            controls,
        ));
    }
}

/// The steps of a set-up in which everything succeeds, one by one: the source is opened, asked for its
/// capabilities and its modes, the profile is loaded, the source gets its format and the controls in
/// order, the sink is opened and gets the same format, and the session is started.
pub proof fn setup_steps_come_in_order(
    source: Source,
    all: Vec<VideoMode>,
    profile: Profile,
    k: nat,
)
    requires
        all@.filter(is_reliable(source.product, source.firmware)).len() > 0,
        k < settings_of(source.product, profile.controls@).len(),
    ensures
        ({
            let settings = settings_of(source.product, profile.controls@);
            let p1 = after_setup(SetupModel::Detect, SetupReply::Detected(Ok(source)));
            let p2 = after_setup(p1, SetupReply::Done);
            let p3 = after_setup(
                p2,
                SetupReply::Capabilities { has_capture: true, has_streaming: true },
            );
            let p4 = after_setup(p3, SetupReply::Modes(all));
            let p5 = after_setup(p4, SetupReply::Loaded(profile));
            let p6 = after_setup(p5, SetupReply::Done);
            let at_k = after_controls(p6, k);
            let p7 = after_controls(p6, settings.len());
            let p8 = after_setup(p7, SetupReply::Done);
            let p9 = after_setup(p8, SetupReply::Done);
            &&& p1 == SetupModel::OpenSource(source@)
            &&& p2 == SetupModel::QueryCapabilities(source@)
            &&& p3 == SetupModel::EnumerateModes(source@)
            &&& p4 == (SetupModel::LoadProfile {
                source: source@,
                modes: all@.filter(is_reliable(source.product, source.firmware)),
            })
            &&& p5 matches SetupModel::SetSourceFormat { mode, controls } && controls == settings
                && mode == chosen_mode(
                all@.filter(is_reliable(source.product, source.firmware)),
                wanted_view(profile.video_mode),
            ) && all@.contains(mode)
            &&& at_k matches SetupModel::SetControl { controls, next, .. } && controls == settings
                && next == k
            &&& p7 == SetupModel::OpenSink(mode_of(p5)->0)
            &&& p8 == SetupModel::SetSinkFormat(mode_of(p5)->0)
            &&& p9 == SetupModel::StartSession(mode_of(p5)->0)
            &&& after_setup(p9, SetupReply::Done) == SetupModel::Streaming(mode_of(p5)->0)
        }),
{
    let modes = all@.filter(is_reliable(source.product, source.firmware));
    let wanted = wanted_view(profile.video_mode);
    let mode = chosen_mode(modes, wanted);
    let controls = settings_of(source.product, profile.controls@);
    broken_formats_are_never_chosen(all@, source.product, source.firmware, wanted);
    lemma_controls(mode, controls, k);
    lemma_controls(mode, controls, controls.len());
}

/// A set-up fails where its source is no capture device, cannot stream, or has no usable mode, and
/// where a step fails other than the loading of the profile and the setting of a control.
pub proof fn setups_fail_for_a_reason(
    source: SourceModel,
    all: Vec<VideoMode>,
    mode: VideoMode,
    words: String,
)
    ensures
        forall|capture: bool, streaming: bool|
            after_setup(
                SetupModel::QueryCapabilities(source),
                #[trigger] capabilities(capture, streaming),
            ) is Failed <==> !capture || !streaming,
        after_setup(SetupModel::EnumerateModes(source), SetupReply::Modes(all)) is Failed <==> (
        forall|i: int|
            0 <= i < all@.len() ==> source.product == ElgatoProduct::Facecam && (
            (#[trigger] all@[i]).format == PixelFormat::Nv12 || all@[i].format == PixelFormat::Yu12)),
        after_setup(SetupModel::OpenSource(source), SetupReply::Failed(words)) is Failed,
        after_setup(SetupModel::OpenSink(mode), SetupReply::Failed(words)) is Failed,
        after_setup(SetupModel::SetSinkFormat(mode), SetupReply::Failed(words)) is Failed,
        after_setup(SetupModel::StartSession(mode), SetupReply::Failed(words)) == SetupModel::Failed(
            words@,
        ),
{
    let pred = is_reliable(source.product, source.firmware);
    let kept = all@.filter(pred);
    if kept.len() > 0 {
        only_broken_formats_are_left_out(all@, source.product, source.firmware, kept[0]);
        assert(kept.contains(kept[0]));
        let i = choose|i: int| 0 <= i < all@.len() && all@[i] == kept[0];
        assert(all@[i].format == kept[0].format);
    } else {
        assert forall|i: int| 0 <= i < all@.len() implies source.product == ElgatoProduct::Facecam && (
        (#[trigger] all@[i]).format == PixelFormat::Nv12 || all@[i].format == PixelFormat::Yu12) by {
            only_broken_formats_are_left_out(all@, source.product, source.firmware, all@[i]);
            assert(all@.contains(all@[i]));
        }
    }
}

/// The answer to the question for capabilities.
pub open spec fn capabilities(has_capture: bool, has_streaming: bool) -> SetupReply {
    SetupReply::Capabilities { has_capture, has_streaming }
}

/// A profile that cannot be loaded changes nothing but what it would have asked for: the first usable
/// mode is captured, and no control is set.
pub proof fn missing_profiles_are_done_without(
    source: SourceModel,
    modes: Seq<VideoMode>,
    words: String,
)
    requires
        modes.len() > 0,
    ensures
        after_setup(SetupModel::LoadProfile { source, modes }, SetupReply::Failed(words)) matches
            SetupModel::SetSourceFormat { mode, controls } && mode == modes[0] && controls.len() == 0,
{
}

/// While the pipeline is set up, it is published as probing until the sink is opened, then as
/// starting, and as streaming and healthy when the session starts; the source is published before it
/// is opened, and the mode before the session starts.
pub proof fn setup_is_published(source: Source, mode: VideoMode)
    ensures
        announced(SetupPhase::Detect) == seq![
            StatusUpdate::State(PipelineState::Probing, HealthStatus::Degraded),
        ],
        announced(SetupPhase::OpenSource(source)) == seq![StatusUpdate::Source(Some(source.path))],
        announced(SetupPhase::OpenSink(mode)) == seq![
            StatusUpdate::State(PipelineState::Starting, HealthStatus::Degraded),
        ],
        announced(SetupPhase::StartSession(mode)) == seq![
            StatusUpdate::State(PipelineState::Streaming, HealthStatus::Healthy),
            StatusUpdate::Mode(Some(mode)),
            StatusUpdate::Connected(true),
        ],
{
}

/// A failure names its step: the errors of the detection, of the enumeration and of the session are
/// passed on, and a source format, a control, a sink and its format have words of their own. A control
/// that cannot be set is no failure.
pub proof fn setup_failures_name_their_step(
    source: SourceModel,
    mode: VideoMode,
    controls: Seq<ControlSetting>,
    next: nat,
    words: String,
)
    requires
        next < controls.len(),
    ensures
        after_setup(SetupModel::Detect, SetupReply::Detected(Err(words))) == SetupModel::Failed(words@),
        after_setup(SetupModel::EnumerateModes(source), SetupReply::Failed(words))
            == SetupModel::Failed(words@),
        after_setup(SetupModel::SetSourceFormat { mode, controls }, SetupReply::Failed(words))
            == SetupModel::Failed("Failed to set source format"@),
        after_setup(SetupModel::OpenSink(mode), SetupReply::Failed(words)) == SetupModel::Failed(
            "Failed to open sink device. Is v4l2loopback loaded?"@,
        ),
        after_setup(SetupModel::SetSinkFormat(mode), SetupReply::Failed(words)) == SetupModel::Failed(
            "Failed to set sink output format"@,
        ),
        after_setup(SetupModel::QueryCapabilities(source), SetupReply::Failed(words))
            == SetupModel::Failed(
            "Failed to query capabilities of "@ + device::product_text(source.product),
        ),
        !(after_setup(SetupModel::SetControl { mode, controls, next }, SetupReply::Failed(words))
            is Failed),
{
}

/// A phase of the set-up holds its own source, modes, mode and controls, and what a profile wants are
/// its own size, rate and format.
pub proof fn phases_hold_what_they_were_given(
    source: Source,
    modes: Vec<VideoMode>,
    mode: VideoMode,
    controls: Vec<ControlSetting>,
    next: usize,
    words: String,
    profile: ProfileVideoMode,
)
    ensures
        (SetupPhase::OpenSource(source))@ matches SetupModel::OpenSource(s) && s.path == source.path@
            && s.product == source.product && s.firmware == source.firmware,
        (SetupPhase::LoadProfile { source, modes })@ matches SetupModel::LoadProfile {
            source: s,
            modes: m,
        } && s == source@ && m == modes@,
        (SetupPhase::SetSourceFormat { mode, controls })@ matches SetupModel::SetSourceFormat {
            mode: m,
            controls: c,
        } && m == mode && c == controls@,
        (SetupPhase::SetControl { mode, controls, next })@ matches SetupModel::SetControl {
            mode: m,
            controls: c,
            next: k,
        } && m == mode && c == controls@ && k == next,
        (SetupPhase::OpenSink(mode))@ == SetupModel::OpenSink(mode),
        (SetupPhase::SetSinkFormat(mode))@ == SetupModel::SetSinkFormat(mode),
        (SetupPhase::StartSession(mode))@ == SetupModel::StartSession(mode),
        (SetupPhase::Streaming(mode))@ == SetupModel::Streaming(mode),
        (SetupPhase::Failed(words))@ == SetupModel::Failed(words@),
        profile@.width == profile.width && profile@.height == profile.height && profile@.fps
            == profile.fps && profile@.format == profile.format@,
{
}

} // verus!
