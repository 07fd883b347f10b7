//! The state of the live view: frame statistics, keys and layout.

use crate::device::{self, ElgatoProduct, ProductDescriptor};
use crate::formats::PixelFormat;
use crate::seqs;
use crate::text::{self, decimal_text, from_utf8_lossy, push_padded_left, text_eq};
use crate::types::ControlValue;
use crate::usb::LocatedDevice;
use crate::v4l2::{self, control_field};
use std::collections::VecDeque;
use vstd::prelude::*;
use vstd::string::*;

verus! {

// ---------------------------------------------------------------------------------------------
// Statistics
// ---------------------------------------------------------------------------------------------

/// How many frames the statistics look back.
pub const MAX_WINDOW: usize = 120;

/// Rolling statistics tracker
#[derive(Debug)]
pub struct FrameStats {
    /// The times between the last frames, in nanoseconds, oldest first.
    pub frame_times: VecDeque<u64>,
    /// The sizes of the last frames, in bytes, oldest first.
    pub frame_sizes: VecDeque<usize>,
    pub total_frames: u64,
    pub dropped_frames: u64,
    pub max_window: usize,
}

/// The last items of a sequence, `n` of them where there are so many.
pub open spec fn last_of<A>(s: Seq<A>, n: nat) -> Seq<A> {
    if s.len() <= n {
        s
    } else {
        s.skip(s.len() - n)
    }
}

/// The sum of the first `n` sizes.
pub open spec fn sum_of(sizes: Seq<usize>, n: nat) -> nat
    decreases n,
{
    if n == 0 {
        0
    } else {
        sum_of(sizes, (n - 1) as nat) + sizes[n - 1] as nat
    }
}

proof fn lemma_sum_grows(sizes: Seq<usize>, n: nat, m: nat)
    requires
        n <= m,
    ensures
        sum_of(sizes, n) <= sum_of(sizes, m),
    decreases m,
{
    if n < m {
        lemma_sum_grows(sizes, n, (m - 1) as nat);
    }
}

impl FrameStats {
    /// Whether the statistics are consistent: a time and a size for each of the last frames, and no
    /// more of them than the window holds.
    pub open spec fn wf(self) -> bool {
        &&& self.max_window == MAX_WINDOW
        &&& self.frame_times@.len() == self.frame_sizes@.len()
        &&& self.frame_times@.len() <= self.max_window
        &&& self.frame_times@.len() <= self.total_frames
    }

    /// No frame was seen yet.
    pub fn new() -> (r: Self)
        ensures
            r.wf(),
            r.frame_times@.len() == 0,
            r.frame_sizes@.len() == 0,
            r.total_frames == 0,
            r.dropped_frames == 0,
    {
        FrameStats {
            frame_times: VecDeque::new(),
            frame_sizes: VecDeque::new(),
            total_frames: 0,
            dropped_frames: 0,
            max_window: MAX_WINDOW,
        }
    }

    /// Counts a frame of a size, so many nanoseconds after the one before.
    pub fn record_frame(&mut self, size: usize, dt_ns: u64)
        requires
            old(self).wf(),
            old(self).total_frames < u64::MAX,
        ensures
            final(self).wf(),
            final(self).frame_times@ == last_of(old(self).frame_times@.push(dt_ns), 120),
            final(self).frame_sizes@ == last_of(old(self).frame_sizes@.push(size), 120),
            final(self).total_frames == old(self).total_frames + 1,
            final(self).dropped_frames == old(self).dropped_frames,
    {
        self.total_frames = self.total_frames + 1;
        self.frame_times.push_back(dt_ns);
        self.frame_sizes.push_back(size);
        if self.frame_times.len() > self.max_window {
            let _ = self.frame_times.pop_front();
            let _ = self.frame_sizes.pop_front();
        }
        proof {
            assert(self.frame_times@ =~= last_of(old(self).frame_times@.push(dt_ns), 120));
            assert(self.frame_sizes@ =~= last_of(old(self).frame_sizes@.push(size), 120));
        }
    }

    /// Counts a frame that did not come. Says whether it is worth a word: the first one is, and
    /// then every hundredth.
    pub fn record_drop(&mut self) -> (r: bool)
        requires
            old(self).dropped_frames < u64::MAX,
        ensures
            final(self).frame_times == old(self).frame_times,
            final(self).frame_sizes == old(self).frame_sizes,
            final(self).total_frames == old(self).total_frames,
            final(self).max_window == old(self).max_window,
            final(self).dropped_frames == old(self).dropped_frames + 1,
            r == (final(self).dropped_frames % 100 == 1),
    {
        self.dropped_frames = self.dropped_frames + 1;
        self.dropped_frames % 100 == 1
    }

    /// The mean size of the last frames, rounded down; 0 where there are none.
    pub fn avg_frame_size(&self) -> (r: usize)
        requires
            sum_of(self.frame_sizes@, self.frame_sizes@.len()) <= usize::MAX,
        ensures
            r == if self.frame_sizes@.len() == 0 {
                0
            } else {
                sum_of(self.frame_sizes@, self.frame_sizes@.len()) / self.frame_sizes@.len()
            },
    {
        let n: usize = self.frame_sizes.len();
        if n == 0 {
            return 0;
        }
        let mut sum: usize = 0;
        for i in 0..n
            invariant
                n == self.frame_sizes@.len(),
                sum_of(self.frame_sizes@, n as nat) <= usize::MAX,
                sum == sum_of(self.frame_sizes@, i as nat),
        {
            proof {
                lemma_sum_grows(self.frame_sizes@, (i + 1) as nat, n as nat);
            }
            sum = sum + self.frame_sizes[i];
        }
        sum / n
    }
}

// ---------------------------------------------------------------------------------------------
// Keys
// ---------------------------------------------------------------------------------------------

/// The controls and switches that keys change.
#[derive(Debug, Clone, Copy, PartialEq, Eq, Structural)]
pub struct ViewState {
    pub brightness: i64,
    pub contrast: i64,
    pub zoom: i64,
    pub paused: bool,
    pub show_detail: bool,
    pub snap_count: u32,
    pub zebras_on: bool,
    pub focus_peak_on: bool,
    /// Whether MJPEG is captured, and not UYVY.
    pub mjpeg: bool,
}

/// Which keys were pressed since the last frame.
#[derive(Debug, Clone, Copy, PartialEq, Eq, Structural)]
pub struct Keys {
    /// `=` or `+` on the number pad.
    pub brighter: bool,
    /// `-`, or `-` on the number pad.
    pub darker: bool,
    pub right_bracket: bool,
    pub left_bracket: bool,
    pub z: bool,
    pub x: bool,
    pub space: bool,
    pub f: bool,
    pub s: bool,
    pub r: bool,
    pub w: bool,
    pub e: bool,
    pub a: bool,
    pub d: bool,
    pub comma: bool,
    pub period: bool,
    pub m: bool,
    pub one: bool,
    pub two: bool,
    pub three: bool,
    pub four: bool,
}

/// The profiles that keys switch to.
#[derive(Debug, Clone, Copy, PartialEq, Eq, Structural)]
pub enum ViewProfile {
    Standard,
    Streaming,
    Lowlight,
    Meeting,
}

/// The name under which a profile is kept.
pub open spec fn profile_name(profile: ViewProfile) -> Seq<char> {
    match profile {
        ViewProfile::Standard => "default"@,
        ViewProfile::Streaming => "streaming"@,
        ViewProfile::Lowlight => "lowlight"@,
        ViewProfile::Meeting => "meeting"@,
    }
}

impl ViewProfile {
    /// The name under which the profile is kept.
    pub fn name(&self) -> (r: &'static str)
        ensures
            r@ == profile_name(*self),
    {
        match self {
            ViewProfile::Standard => "default",
            ViewProfile::Streaming => "streaming",
            ViewProfile::Lowlight => "lowlight",
            ViewProfile::Meeting => "meeting",
        }
    }
}

/// What is to be done for the keys.
#[derive(Debug, Clone, Copy, PartialEq, Eq, Structural)]
pub enum ViewAction {
    /// Set a control.
    SetControl { id: u32, value: i32 },
    /// Save the picture with this number, and diagnostics beside it.
    Snapshot(u32),
    /// Reset the camera.
    Reset,
    /// Say whether the zebra stripes are on.
    SayZebras(bool),
    /// Say whether focus peaking is on.
    SayFocusPeaking(bool),
    /// Take the picture as the reference for comparisons.
    CaptureReference,
    /// Forget the reference.
    ClearReference,
    /// Move the split between the reference and the picture to the left.
    SplitLeft,
    /// Move the split to the right.
    SplitRight,
    /// Capture in this format.
    SetFormat(PixelFormat),
    /// Switch to this profile.
    ApplyProfile(ViewProfile),
}

pub const BRIGHTNESS_ID: u32 = 0x00980900;

pub const CONTRAST_ID: u32 = 0x00980901;

pub const ZOOM_ID: u32 = 0x009a090d;

/// A value after a key that raises it, and one that lowers it, where they were pressed: raised by a
/// step, at most to the upper limit, then lowered by a step, at least to the lower limit.
pub open spec fn adjusted(value: int, up: bool, down: bool, step: int, low: int, high: int) -> int {
    let raised = if up {
        if value + step <= high {
            value + step
        } else {
            high
        }
    } else {
        value
    };
    if down {
        if raised - step >= low {
            raised - step
        } else {
            low
        }
    } else {
        raised
    }
}

/// The state after the keys.
pub open spec fn after_keys(s: ViewState, k: Keys) -> ViewState {
    ViewState {
        brightness: adjusted(s.brightness as int, k.brighter, k.darker, 10, 0, 255) as i64,
        contrast: adjusted(s.contrast as int, k.right_bracket, k.left_bracket, 1, 0, 10) as i64,
        zoom: adjusted(s.zoom as int, k.z, k.x, 1, 1, 31) as i64,
        paused: s.paused != k.space,
        show_detail: s.show_detail != k.f,
        snap_count: if k.s {
            (s.snap_count + 1) as u32
        } else {
            s.snap_count
        },
        zebras_on: s.zebras_on != k.w,
        focus_peak_on: s.focus_peak_on != k.e,
        mjpeg: s.mjpeg != k.m,
    }
}

/// The format that is captured.
pub open spec fn captured_format(s: ViewState) -> PixelFormat {
    if s.mjpeg {
        PixelFormat::Mjpeg
    } else {
        PixelFormat::Uyvy
    }
}

/// An action, where its key was pressed.
pub open spec fn when(pressed: bool, action: ViewAction) -> Seq<ViewAction> {
    if pressed {
        seq![action]
    } else {
        Seq::empty()
    }
}

/// The settings of a control that two keys change: the raised value, then the lowered one.
pub open spec fn settings(id: u32, value: int, up: bool, down: bool, step: int, low: int, high: int) -> Seq<
    ViewAction,
> {
    when(
        up,
        ViewAction::SetControl {
            id,
            value: v4l2::low_half(adjusted(value, up, false, step, low, high) as i64),
        },
    ) + when(
        down,
        ViewAction::SetControl {
            id,
            value: v4l2::low_half(adjusted(value, up, down, step, low, high) as i64),
        },
    )
}

/// The settings that the keys make, in order.
pub open spec fn control_actions(s: ViewState, k: Keys) -> Seq<ViewAction> {
    settings(BRIGHTNESS_ID, s.brightness as int, k.brighter, k.darker, 10, 0, 255) + settings(
        CONTRAST_ID,
        s.contrast as int,
        k.right_bracket,
        k.left_bracket,
        1,
        0,
        10,
    ) + settings(ZOOM_ID, s.zoom as int, k.z, k.x, 1, 1, 31)
}

/// What else is to be done for the keys, in order; `next` is the state after them.
pub open spec fn other_actions(next: ViewState, k: Keys) -> Seq<ViewAction> {
    when(k.s, ViewAction::Snapshot(next.snap_count)) + when(k.r, ViewAction::Reset) + when(
        k.w,
        ViewAction::SayZebras(next.zebras_on),
    ) + when(k.e, ViewAction::SayFocusPeaking(next.focus_peak_on)) + when(
        k.a,
        ViewAction::CaptureReference,
    ) + when(k.d, ViewAction::ClearReference) + when(k.comma, ViewAction::SplitLeft) + when(
        k.period,
        ViewAction::SplitRight,
    )
}

/// The changes of the capture that the keys make, in order; `next` is the state after them.
pub open spec fn capture_actions(next: ViewState, k: Keys) -> Seq<ViewAction> {
    when(k.m, ViewAction::SetFormat(captured_format(next))) + when(
        k.one,
        ViewAction::ApplyProfile(ViewProfile::Standard),
    ) + when(k.two, ViewAction::ApplyProfile(ViewProfile::Streaming)) + when(
        k.three,
        ViewAction::ApplyProfile(ViewProfile::Lowlight),
    ) + when(k.four, ViewAction::ApplyProfile(ViewProfile::Meeting))
}

/// What is to be done for the keys, in order.
pub open spec fn actions_for(s: ViewState, k: Keys) -> Seq<ViewAction> {
    control_actions(s, k) + other_actions(after_keys(s, k), k) + capture_actions(
        after_keys(s, k),
        k,
    )
}

/// Whether the values can be changed by a step without leaving 64 bits, and pictures counted on.
pub open spec fn can_step(s: ViewState) -> bool {
    &&& i64::MIN + 10 <= s.brightness <= i64::MAX - 10
    &&& i64::MIN < s.contrast < i64::MAX
    &&& i64::MIN < s.zoom < i64::MAX
    &&& s.snap_count < u32::MAX
}

/// Raises and lowers a value as the keys say, and notes the settings.
fn adjust(
    actions: &mut Vec<ViewAction>,
    id: u32,
    value: i64,
    up: bool,
    down: bool,
    step: i64,
    low: i64,
    high: i64,
) -> (r: i64)
    requires
        0 < step <= 10,
        0 <= low <= high <= 255,
        i64::MIN + step <= value <= i64::MAX - step,
    ensures
        r == adjusted(value as int, up, down, step as int, low as int, high as int),
        final(actions)@ == old(actions)@ + settings(
            id,
            value as int,
            up,
            down,
            step as int,
            low as int,
            high as int,
        ),
{
    let ghost before = actions@;
    let mut v: i64 = value;
    if up {
        v = if v + step <= high {
            v + step
        } else {
            high
        };
        actions.push(ViewAction::SetControl { id, value: control_field(v) });
    }
    if down {
        v = if v - step >= low {
            v - step
        } else {
            low
        };
        actions.push(ViewAction::SetControl { id, value: control_field(v) });
    }
    proof {
        assert(actions@ =~= before + settings(
            id,
            value as int,
            up,
            down,
            step as int,
            low as int,
            high as int,
        ));
    }
    v
}

fn note(actions: &mut Vec<ViewAction>, pressed: bool, action: ViewAction)
    ensures
        final(actions)@ == old(actions)@ + when(pressed, action),
{
    let ghost before = actions@;
    if pressed {
        actions.push(action);
    }
    proof {
        assert(actions@ =~= before + when(pressed, action));
    }
}

fn note_others(next: &ViewState, keys: Keys) -> (r: Vec<ViewAction>)
    ensures
        r@ == other_actions(*next, keys),
{
    let mut actions: Vec<ViewAction> = Vec::new();
    note(&mut actions, keys.s, ViewAction::Snapshot(next.snap_count));
    proof {
        let first = when(keys.s, ViewAction::Snapshot(next.snap_count));
        assert(Seq::<ViewAction>::empty() + first =~= first);
    }
    note(&mut actions, keys.r, ViewAction::Reset);
    note(&mut actions, keys.w, ViewAction::SayZebras(next.zebras_on));
    note(&mut actions, keys.e, ViewAction::SayFocusPeaking(next.focus_peak_on));
    note(&mut actions, keys.a, ViewAction::CaptureReference);
    note(&mut actions, keys.d, ViewAction::ClearReference);
    note(&mut actions, keys.comma, ViewAction::SplitLeft);
    note(&mut actions, keys.period, ViewAction::SplitRight);
    actions
}

fn note_capture(next: &ViewState, keys: Keys) -> (r: Vec<ViewAction>)
    ensures
        r@ == capture_actions(*next, keys),
{
    let format = if next.mjpeg {
        PixelFormat::Mjpeg
    } else {
        PixelFormat::Uyvy
    };
    let mut actions: Vec<ViewAction> = Vec::new();
    note(&mut actions, keys.m, ViewAction::SetFormat(format));
    proof {
        let first = when(keys.m, ViewAction::SetFormat(format));
        assert(Seq::<ViewAction>::empty() + first =~= first);
    }
    note(&mut actions, keys.one, ViewAction::ApplyProfile(ViewProfile::Standard));
    note(&mut actions, keys.two, ViewAction::ApplyProfile(ViewProfile::Streaming));
    note(&mut actions, keys.three, ViewAction::ApplyProfile(ViewProfile::Lowlight));
    note(&mut actions, keys.four, ViewAction::ApplyProfile(ViewProfile::Meeting));
    actions
}

/// Handles the keys that were pressed: changes the state, and says what is to be done, in order.
pub fn handle_keys(state: &mut ViewState, keys: Keys) -> (r: Vec<ViewAction>)
    requires
        can_step(*old(state)),
    ensures
        *final(state) == after_keys(*old(state), keys),
        r@ == actions_for(*old(state), keys),
{
    let s = *state;
    let mut actions: Vec<ViewAction> = Vec::new();
    let brightness: i64 = adjust(
        &mut actions,
        BRIGHTNESS_ID,
        s.brightness,
        keys.brighter,
        keys.darker,
        10,
        0,
        255,
    );
    let contrast: i64 = adjust(
        &mut actions,
        CONTRAST_ID,
        s.contrast,
        keys.right_bracket,
        keys.left_bracket,
        1,
        0,
        10,
    );
    let zoom: i64 = adjust(&mut actions, ZOOM_ID, s.zoom, keys.z, keys.x, 1, 1, 31);
    proof {
        assert(actions@ =~= control_actions(s, keys));
    }
    let next = ViewState {
        brightness,
        contrast,
        zoom,
        paused: s.paused != keys.space,
        show_detail: s.show_detail != keys.f,
        snap_count: if keys.s {
            s.snap_count + 1
        } else {
            s.snap_count
        },
        zebras_on: s.zebras_on != keys.w,
        focus_peak_on: s.focus_peak_on != keys.e,
        mjpeg: s.mjpeg != keys.m,
    };
    let mut others = note_others(&next, keys);
    actions.append(&mut others);
    let mut changes = note_capture(&next, keys);
    actions.append(&mut changes);
    *state = next;
    actions
}

/// The path of the picture with a number, below the home directory or the directory for temporary
/// files.
pub fn snapshot_path(home: &Option<String>, number: u32) -> (r: String)
    ensures
        r@ == (match *home {
            Some(h) => h@,
            None => "/tmp"@,
        }) + "/facecam-snapshots/snap-"@ + text::padded_left(text::decimal(number as nat), 4, '0')
            + ".ppm"@,
{
    let mut out = match home {
        Some(h) => h.clone(),
        None => "/tmp".to_owned(),
    };
    out.append("/facecam-snapshots/snap-");
    let digits = decimal_text(number as u64);
    push_padded_left(&mut out, digits.as_str(), 4, '0');
    out.append(".ppm");
    out
}

// ---------------------------------------------------------------------------------------------
// Modes and layout
// ---------------------------------------------------------------------------------------------

/// The size for a number of lines, and whether this number is one that the view offers. For any
/// other number the size is that of 720 lines.
pub fn view_size(lines: u32) -> (r: ((u32, u32), bool))
    ensures
        r == if lines == 1080 {
            ((1920u32, 1080u32), true)
        } else if lines == 720 {
            ((1280u32, 720u32), true)
        } else if lines == 540 {
            ((960u32, 540u32), true)
        } else {
            ((1280u32, 720u32), false)
        },
{
    match lines {
        1080 => ((1920, 1080), true),
        720 => ((1280, 720), true),
        540 => ((960, 540), true),
        _ => ((1280, 720), false),
    }
}

/// The name of the format that the driver settled on, and whether it is MJPEG.
pub fn negotiated_format(code: &[u8; 4]) -> (r: (String, bool))
    ensures
        r.1 == (code@ == seq![77u8, 74u8, 80u8, 71u8]),
        r.0@ == if r.1 {
            "MJPEG"@
        } else {
            text::lossy_text(code@)
        },
{
    let is_mjpeg = code[0] == 77 && code[1] == 74 && code[2] == 80 && code[3] == 71;
    proof {
        assert(is_mjpeg == (code@ =~= seq![77u8, 74u8, 80u8, 71u8]));
    }
    if is_mjpeg {
        ("MJPEG".to_owned(), true)
    } else {
        (from_utf8_lossy(code.as_slice()), false)
    }
}

/// Where the parts of the window stand: the picture on top, then a line, the scopes, the statistics
/// and the waterfall, each one pixel apart.
#[derive(Debug, Clone, Copy, PartialEq, Eq, Structural)]
pub struct Layout {
    pub width: usize,
    pub height: usize,
    pub scopes_y: usize,
    pub stats_y: usize,
    pub waterfall_y: usize,
}

pub const SCOPES_HEIGHT: usize = 128;

pub const STATS_HEIGHT: usize = 24;

pub const WATERFALL_HEIGHT: usize = 32;

/// The layout of the window for a picture.
pub fn layout(width: u32, height: u32) -> (r: Layout)
    requires
        height + 188 <= usize::MAX,
    ensures
        r.width == width,
        r.height == height + 188,
        r.scopes_y == height + 1,
        r.stats_y == r.scopes_y + SCOPES_HEIGHT + 1,
        r.waterfall_y == r.stats_y + STATS_HEIGHT + 1,
        r.waterfall_y + WATERFALL_HEIGHT <= r.height,
{
    let h: usize = height as usize;
    let scopes_y: usize = h + 1;
    let stats_y: usize = scopes_y + SCOPES_HEIGHT + 1;
    let waterfall_y: usize = stats_y + STATS_HEIGHT + 1;
    Layout { width: width as usize, height: h + 188, scopes_y, stats_y, waterfall_y }
}

/// The marks in the statistics line: whether the view is paused, whether there is a reference, and
/// which overlays are on.
pub fn state_marks(s: &ViewState, has_reference: bool) -> (r: String)
    ensures
        r@ == (if s.paused {
            " PAUSED"@
        } else {
            ""@
        }) + (if has_reference {
            " [A/B]"@
        } else {
            ""@
        }) + (if s.zebras_on {
            " [ZEBRA]"@
        } else {
            ""@
        }) + (if s.focus_peak_on {
            " [FOCUS]"@
        } else {
            ""@
        }),
{
    let mut out = (if s.paused {
        " PAUSED"
    } else {
        ""
    }).to_owned();
    out.append(
        if has_reference {
            " [A/B]"
        } else {
            ""
        },
    );
    out.append(
        if s.zebras_on {
            " [ZEBRA]"
        } else {
            ""
        },
    );
    out.append(
        if s.focus_peak_on {
            " [FOCUS]"
        } else {
            ""
        },
    );
    out
}

/// A mark on the picture.
#[derive(Debug, Clone, Copy, PartialEq, Eq, Structural)]
pub enum Badge {
    /// The zebra stripes are on.
    Zebra,
    /// Focus peaking is on.
    Focus,
    /// There is a reference to compare with.
    Comparison,
}

/// The text of a mark.
pub open spec fn badge_text(badge: Badge) -> Seq<char> {
    match badge {
        Badge::Zebra => " ZEBRA "@,
        Badge::Focus => " FOCUS "@,
        Badge::Comparison => "  A/B  "@,
    }
}

/// The colour of a mark.
pub open spec fn badge_color(badge: Badge) -> u32 {
    match badge {
        Badge::Zebra => 0xFF4444,
        Badge::Focus => 0xFF00FF,
        Badge::Comparison => 0x00CCFF,
    }
}

impl Badge {
    /// The text of the mark.
    pub fn text(&self) -> (r: &'static str)
        ensures
            r@ == badge_text(*self),
    {
        match self {
            Badge::Zebra => " ZEBRA ",
            Badge::Focus => " FOCUS ",
            Badge::Comparison => "  A/B  ",
        }
    }

    /// The colour of the mark.
    pub fn color(&self) -> (r: u32)
        ensures
            r == badge_color(*self),
    {
        match self {
            Badge::Zebra => 0xFF4444,
            Badge::Focus => 0xFF00FF,
            Badge::Comparison => 0x00CCFF,
        }
    }
}

/// The marks that are shown, in order.
pub open spec fn shown_badges(s: ViewState, has_reference: bool) -> Seq<Badge> {
    (if s.zebras_on {
        seq![Badge::Zebra]
    } else {
        Seq::empty()
    }) + (if s.focus_peak_on {
        seq![Badge::Focus]
    } else {
        Seq::empty()
    }) + (if has_reference {
        seq![Badge::Comparison]
    } else {
        Seq::empty()
    })
}

/// The marks on the picture, each with the line at which it begins: they stand one below the other,
/// twelve lines apart.
pub fn badges(state: &ViewState, has_reference: bool) -> (r: Vec<(usize, Badge)>)
    ensures
        r@.len() == shown_badges(*state, has_reference).len(),
        forall|k: int|
            0 <= k < r@.len() ==> (#[trigger] r@[k]).0 == 4 + 12 * k && r@[k].1 == shown_badges(
                *state,
                has_reference,
            )[k],
{
    let mut out: Vec<(usize, Badge)> = Vec::new();
    let mut y: usize = 4;
    if state.zebras_on {
        out.push((y, Badge::Zebra));
        y = y + 12;
    }
    if state.focus_peak_on {
        out.push((y, Badge::Focus));
        y = y + 12;
    }
    if has_reference {
        out.push((y, Badge::Comparison));
    }
    out
}

/// Whether a control has a name.
pub open spec fn is_named(name: Seq<char>) -> spec_fn(ControlValue) -> bool {
    |c: ControlValue| c.name@ == name
}

/// The value of the first control with a name, or 0 where there is none.
pub fn get_ctrl_value(controls: &Vec<ControlValue>, name: &str) -> (r: i64)
    ensures
        ({
            let i = seqs::first_index(controls@, is_named(name@));
            r == if i < controls@.len() {
                controls@[i].value
            } else {
                0
            }
        }),
{
    for i in 0..controls.len()
        invariant
            forall|j: int| 0 <= j < i ==> !is_named(name@)(#[trigger] controls@[j]),
    {
        if text_eq(controls[i].name.as_str(), name) {
            proof {
                seqs::lemma_first_index(controls@, is_named(name@), i as int);
            }
            return controls[i].value;
        }
    }
    proof {
        seqs::lemma_first_index(controls@, is_named(name@), controls@.len() as int);
    }
    0
}

// ---------------------------------------------------------------------------------------------
// The device
// ---------------------------------------------------------------------------------------------

/// The message where a camera is in USB 2.0 fallback mode.
pub const IN_FALLBACK: &'static str =
    "Facecam is in USB 2.0 fallback mode. Move to a USB 3.0 port.";

/// The message where no camera is found.
pub const NOT_FOUND: &'static str = "Facecam not found. Is it connected to a USB 3.0 port?";

/// Whether a device decides the search: a camera in fallback mode ends it, and a capture device
/// whose node is known is what is searched.
pub open spec fn decides() -> spec_fn(LocatedDevice) -> bool {
    |d: LocatedDevice|
        d.fingerprint.product == ElgatoProduct::FacecamUsb2Fallback || (
        device::exposes_uvc_capture(d.fingerprint.product) && d.sysfs_path is Some && d.node
            is Some)
}

/// The node to view: the one that was asked for, or that of the first capture device. A camera in
/// fallback mode that comes before it is an error.
pub open spec fn view_target(explicit: Option<String>, devices: Seq<LocatedDevice>) -> Result<
    Seq<char>,
    Seq<char>,
> {
    let i = seqs::first_index(devices, decides());
    if let Some(path) = explicit {
        Ok(path@)
    } else if i >= devices.len() {
        Err(NOT_FOUND@)
    } else if devices[i].fingerprint.product == ElgatoProduct::FacecamUsb2Fallback {
        Err(IN_FALLBACK@)
    } else {
        Ok(devices[i].node->0@)
    }
}

/// A result with texts as character sequences.
pub open spec fn result_view(r: Result<String, String>) -> Result<Seq<char>, Seq<char>> {
    match r {
        Ok(path) => Ok(path@),
        Err(words) => Err(words@),
    }
}

/// Resolves the node to view.
pub fn resolve_device(explicit: &Option<String>, devices: &Vec<LocatedDevice>) -> (r: Result<
    String,
    String,
>)
    ensures
        result_view(r) == view_target(*explicit, devices@),
{
    if let Some(path) = explicit {
        return Ok(path.clone());
    }
    let i = first_decisive(devices);
    if i >= devices.len() {
        return Err(NOT_FOUND.to_owned());
    }
    if devices[i].fingerprint.product.is_usb2_fallback() {
        return Err(IN_FALLBACK.to_owned());
    }
    match &devices[i].node {
        Some(node) => Ok(node.clone()),
        None => Err(NOT_FOUND.to_owned()),
    }
}

fn first_decisive(devices: &Vec<LocatedDevice>) -> (r: usize)
    ensures
        r == seqs::first_index(devices@, decides()),
        r <= devices@.len(),
        r < devices@.len() ==> decides()(devices@[r as int]),
{
    for i in 0..devices.len()
        invariant
            forall|j: int| 0 <= j < i ==> !decides()(#[trigger] devices@[j]),
    {
        let d = &devices[i];
        if d.fingerprint.product.is_usb2_fallback() || (d.fingerprint.product.is_uvc_capture()
            && d.sysfs_path.is_some() && d.node.is_some()) {
            proof {
                seqs::lemma_first_index(devices@, decides(), i as int);
            }
            return i;
        }
    }
    proof {
        seqs::lemma_first_index(devices@, decides(), devices@.len() as int);
    }
    devices.len()
}

// ---------------------------------------------------------------------------------------------
// Laws
// ---------------------------------------------------------------------------------------------

/// Keys never take a control that was in its range out of it.
pub proof fn keys_keep_controls_in_range(s: ViewState, k: Keys)
    requires
        0 <= s.brightness <= 255,
        0 <= s.contrast <= 10,
        1 <= s.zoom <= 31,
    ensures
        0 <= after_keys(s, k).brightness <= 255,
        0 <= after_keys(s, k).contrast <= 10,
        1 <= after_keys(s, k).zoom <= 31,
{
}

/// Without a key nothing changes and nothing is done.
pub proof fn no_key_no_change(s: ViewState)
    ensures
        ({
            let none = Keys {
                brighter: false,
                darker: false,
                right_bracket: false,
                left_bracket: false,
                z: false,
                x: false,
                space: false,
                f: false,
                s: false,
                r: false,
                w: false,
                e: false,
                a: false,
                d: false,
                comma: false,
                period: false,
                m: false,
                one: false,
                two: false,
                three: false,
                four: false,
            };
            after_keys(s, none) == s && actions_for(s, none).len() == 0
        }),
{
}

/// The switches for the pause, the details, the overlays and the format come back when their keys
/// are pressed twice.
pub proof fn switches_toggle(s: ViewState, k: Keys)
    ensures
        ({
            let twice = after_keys(after_keys(s, k), k);
            &&& twice.paused == s.paused
            &&& twice.show_detail == s.show_detail
            &&& twice.zebras_on == s.zebras_on
            &&& twice.focus_peak_on == s.focus_peak_on
            &&& twice.mjpeg == s.mjpeg
        }),
{
}

/// The statistics after a list of frames: the window holds the last ones.
pub open spec fn window_after<A>(frames: Seq<A>) -> Seq<A>
    decreases frames.len(),
{
    if frames.len() == 0 {
        Seq::empty()
    } else {
        last_of(window_after(frames.drop_last()).push(frames.last()), 120)
    }
}

/// However many frames were recorded, the window holds exactly the last of them, as many as fit.
pub proof fn window_holds_the_last_frames<A>(frames: Seq<A>)
    ensures
        window_after(frames) == last_of(frames, 120),
    decreases frames.len(),
{
    if frames.len() > 0 {
        window_holds_the_last_frames(frames.drop_last());
        assert(window_after(frames) =~= last_of(frames, 120));
    }
}

/// Each key changes its own setting by its own step: the brightness by ten, up to 255 and down to 0;
/// the contrast by one, up to 10 and down to 0; the zoom by one, up to 31 and down to 1. A setting
/// stays without its keys.
pub proof fn keys_change_their_setting(s: ViewState, k: Keys)
    requires
        0 <= s.brightness <= 255,
        0 <= s.contrast <= 10,
        1 <= s.zoom <= 31,
    ensures
        ({
            let t = after_keys(s, k);
            &&& k.brighter && !k.darker ==> t.brightness == if s.brightness <= 245 {
                s.brightness + 10
            } else {
                255int
            }
            &&& k.darker && !k.brighter ==> t.brightness == if s.brightness >= 10 {
                s.brightness - 10
            } else {
                0int
            }
            &&& !k.darker && !k.brighter ==> t.brightness == s.brightness
            &&& k.right_bracket && !k.left_bracket ==> t.contrast == if s.contrast < 10 {
                s.contrast + 1
            } else {
                10int
            }
            &&& k.left_bracket && !k.right_bracket ==> t.contrast == if s.contrast > 0 {
                s.contrast - 1
            } else {
                0int
            }
            &&& !k.left_bracket && !k.right_bracket ==> t.contrast == s.contrast
            &&& k.z && !k.x ==> t.zoom == if s.zoom < 31 {
                s.zoom + 1
            } else {
                31int
            }
            &&& k.x && !k.z ==> t.zoom == if s.zoom > 1 {
                s.zoom - 1
            } else {
                1int
            }
            &&& !k.x && !k.z ==> t.zoom == s.zoom
        }),
{
}

/// Each switch turns with its own key and with no other: the space bar pauses, F shows details, W the
/// zebras, E the focus, M changes the format; and S counts the pictures.
pub proof fn keys_turn_their_switch(s: ViewState, k: Keys)
    requires
        s.snap_count < u32::MAX,
    ensures
        ({
            let t = after_keys(s, k);
            &&& k.space <==> t.paused != s.paused
            &&& k.f <==> t.show_detail != s.show_detail
            &&& k.w <==> t.zebras_on != s.zebras_on
            &&& k.e <==> t.focus_peak_on != s.focus_peak_on
            &&& k.m <==> t.mjpeg != s.mjpeg
            &&& t.snap_count == s.snap_count + if k.s {
                1int
            } else {
                0int
            }
        }),
{
}

proof fn lemma_in_either(a: Seq<ViewAction>, b: Seq<ViewAction>, action: ViewAction)
    ensures
        (a + b).contains(action) <==> a.contains(action) || b.contains(action),
{
    if a.contains(action) {
        let i = choose|i: int| 0 <= i < a.len() && a[i] == action;
        assert((a + b)[i] == action);
    }
    if b.contains(action) {
        let i = choose|i: int| 0 <= i < b.len() && b[i] == action;
        assert((a + b)[a.len() + i] == action);
    }
}

proof fn lemma_when(pressed: bool, action: ViewAction, other: ViewAction)
    ensures
        (when(pressed, action)).contains(other) <==> pressed && other == action,
{
    if pressed {
        assert(when(pressed, action)[0] == action);
    }
}

proof fn lemma_settings(
    id: u32,
    value: int,
    up: bool,
    down: bool,
    step: int,
    low: int,
    high: int,
    other: ViewAction,
)
    ensures
        settings(id, value, up, down, step, low, high).contains(other) ==> (other
            matches ViewAction::SetControl { id: set, .. } && set == id && (up || down)),
        (up || down) ==> settings(id, value, up, down, step, low, high).contains(
            ViewAction::SetControl {
                id,
                value: v4l2::low_half(adjusted(value, up, down, step, low, high) as i64),
            },
        ),
{
    let first = ViewAction::SetControl {
        id,
        value: v4l2::low_half(adjusted(value, up, false, step, low, high) as i64),
    };
    let second = ViewAction::SetControl {
        id,
        value: v4l2::low_half(adjusted(value, up, down, step, low, high) as i64),
    };
    lemma_in_either(when(up, first), when(down, second), other);
    lemma_in_either(when(up, first), when(down, second), first);
    lemma_in_either(when(up, first), when(down, second), second);
    lemma_when(up, first, other);
    lemma_when(down, second, other);
    lemma_when(up, first, first);
    lemma_when(down, second, second);
}

/// A setting that a key changes is set on the camera: the control with its id gets the new value.
/// Without a key of the setting its control is not set.
pub proof fn changed_settings_are_set(s: ViewState, k: Keys, value: i32)
    requires
        0 <= s.brightness <= 255,
        0 <= s.contrast <= 10,
        1 <= s.zoom <= 31,
    ensures
        ({
            let t = after_keys(s, k);
            let actions = control_actions(s, k);
            &&& k.brighter || k.darker ==> actions.contains(
                ViewAction::SetControl { id: 0x0098_0900, value: t.brightness as i32 },
            )
            &&& k.left_bracket || k.right_bracket ==> actions.contains(
                ViewAction::SetControl { id: 0x0098_0901, value: t.contrast as i32 },
            )
            &&& k.z || k.x ==> actions.contains(
                ViewAction::SetControl { id: 0x009a_090d, value: t.zoom as i32 },
            )
            &&& !k.brighter && !k.darker ==> !actions.contains(
                ViewAction::SetControl { id: 0x0098_0900, value },
            )
            &&& !k.left_bracket && !k.right_bracket ==> !actions.contains(
                ViewAction::SetControl { id: 0x0098_0901, value },
            )
            &&& !k.z && !k.x ==> !actions.contains(
                ViewAction::SetControl { id: 0x009a_090d, value },
            )
        }),
{
    let t = after_keys(s, k);
    v4l2::small_values_are_kept(t.brightness);
    v4l2::small_values_are_kept(t.contrast);
    v4l2::small_values_are_kept(t.zoom);
    let e1 = ViewAction::SetControl { id: 0x0098_0900, value: t.brightness as i32 };
    let e2 = ViewAction::SetControl { id: 0x0098_0901, value: t.contrast as i32 };
    let e3 = ViewAction::SetControl { id: 0x009a_090d, value: t.zoom as i32 };
    let n1 = ViewAction::SetControl { id: 0x0098_0900, value };
    let n2 = ViewAction::SetControl { id: 0x0098_0901, value };
    let n3 = ViewAction::SetControl { id: 0x009a_090d, value };
    lemma_three_settings(s, k, e1);
    lemma_three_settings(s, k, e2);
    lemma_three_settings(s, k, e3);
    lemma_three_settings(s, k, n1);
    lemma_three_settings(s, k, n2);
    lemma_three_settings(s, k, n3);
}

proof fn lemma_three_settings(s: ViewState, k: Keys, e: ViewAction)
    ensures
        ({
            let a = settings(BRIGHTNESS_ID, s.brightness as int, k.brighter, k.darker, 10, 0, 255);
            let b = settings(
                CONTRAST_ID,
                s.contrast as int,
                k.right_bracket,
                k.left_bracket,
                1,
                0,
                10,
            );
            let c = settings(ZOOM_ID, s.zoom as int, k.z, k.x, 1, 1, 31);
            &&& control_actions(s, k).contains(e) <==> a.contains(e) || b.contains(e) || c.contains(e)
            &&& a.contains(e) ==> (e matches ViewAction::SetControl { id, .. } && id == BRIGHTNESS_ID
                && (k.brighter || k.darker))
            &&& b.contains(e) ==> (e matches ViewAction::SetControl { id, .. } && id == CONTRAST_ID
                && (k.right_bracket || k.left_bracket))
            &&& c.contains(e) ==> (e matches ViewAction::SetControl { id, .. } && id == ZOOM_ID && (
            k.z || k.x))
            &&& k.brighter || k.darker ==> a.contains(
                ViewAction::SetControl {
                    id: BRIGHTNESS_ID,
                    value: v4l2::low_half(after_keys(s, k).brightness),
                },
            )
            &&& k.right_bracket || k.left_bracket ==> b.contains(
                ViewAction::SetControl {
                    id: CONTRAST_ID,
                    value: v4l2::low_half(after_keys(s, k).contrast),
                },
            )
            &&& k.z || k.x ==> c.contains(
                ViewAction::SetControl { id: ZOOM_ID, value: v4l2::low_half(after_keys(s, k).zoom) },
            )
        }),
{
    let a = settings(BRIGHTNESS_ID, s.brightness as int, k.brighter, k.darker, 10, 0, 255);
    let b = settings(
        CONTRAST_ID,
        s.contrast as int,
        k.right_bracket,
        k.left_bracket,
        1,
        0,
        10,
    );
    let c = settings(ZOOM_ID, s.zoom as int, k.z, k.x, 1, 1, 31);
    lemma_in_either(a + b, c, e);
    lemma_in_either(a, b, e);
    lemma_settings(BRIGHTNESS_ID, s.brightness as int, k.brighter, k.darker, 10, 0, 255, e);
    lemma_settings(
        CONTRAST_ID,
        s.contrast as int,
        k.right_bracket,
        k.left_bracket,
        1,
        0,
        10,
        e,
    );
    lemma_settings(ZOOM_ID, s.zoom as int, k.z, k.x, 1, 1, 31, e);
}

/// What else the keys ask for is done where they are pressed, and only there: S takes a picture under
/// the new number, R resets, A and D take and clear the reference, and the comma and the period move
/// the split. W and E tell what was switched.
pub proof fn other_keys_have_their_action(s: ViewState, k: Keys)
    ensures
        ({
            let t = after_keys(s, k);
            let actions = other_actions(t, k);
            &&& k.s <==> actions.contains(ViewAction::Snapshot(t.snap_count))
            &&& k.r <==> actions.contains(ViewAction::Reset)
            &&& k.w <==> actions.contains(ViewAction::SayZebras(t.zebras_on))
            &&& k.e <==> actions.contains(ViewAction::SayFocusPeaking(t.focus_peak_on))
            &&& k.a <==> actions.contains(ViewAction::CaptureReference)
            &&& k.d <==> actions.contains(ViewAction::ClearReference)
            &&& k.comma <==> actions.contains(ViewAction::SplitLeft)
            &&& k.period <==> actions.contains(ViewAction::SplitRight)
        }),
{
    let t = after_keys(s, k);
    lemma_other_actions(t, k, ViewAction::Snapshot(t.snap_count));
    lemma_other_actions(t, k, ViewAction::Reset);
    lemma_other_actions(t, k, ViewAction::SayZebras(t.zebras_on));
    lemma_other_actions(t, k, ViewAction::SayFocusPeaking(t.focus_peak_on));
    lemma_other_actions(t, k, ViewAction::CaptureReference);
    lemma_other_actions(t, k, ViewAction::ClearReference);
    lemma_other_actions(t, k, ViewAction::SplitLeft);
    lemma_other_actions(t, k, ViewAction::SplitRight);
}

proof fn lemma_other_actions(t: ViewState, k: Keys, e: ViewAction)
    ensures
        other_actions(t, k).contains(e) <==> {
            ||| k.s && e == ViewAction::Snapshot(t.snap_count)
            ||| k.r && e == ViewAction::Reset
            ||| k.w && e == ViewAction::SayZebras(t.zebras_on)
            ||| k.e && e == ViewAction::SayFocusPeaking(t.focus_peak_on)
            ||| k.a && e == ViewAction::CaptureReference
            ||| k.d && e == ViewAction::ClearReference
            ||| k.comma && e == ViewAction::SplitLeft
            ||| k.period && e == ViewAction::SplitRight
        },
{
    let a1 = when(k.s, ViewAction::Snapshot(t.snap_count));
    let a2 = when(k.r, ViewAction::Reset);
    let a3 = when(k.w, ViewAction::SayZebras(t.zebras_on));
    let a4 = when(k.e, ViewAction::SayFocusPeaking(t.focus_peak_on));
    let a5 = when(k.a, ViewAction::CaptureReference);
    let a6 = when(k.d, ViewAction::ClearReference);
    let a7 = when(k.comma, ViewAction::SplitLeft);
    let a8 = when(k.period, ViewAction::SplitRight);
    lemma_in_either(a1, a2, e);
    lemma_in_either(a1 + a2, a3, e);
    lemma_in_either(a1 + a2 + a3, a4, e);
    lemma_in_either(a1 + a2 + a3 + a4, a5, e);
    lemma_in_either(a1 + a2 + a3 + a4 + a5, a6, e);
    lemma_in_either(a1 + a2 + a3 + a4 + a5 + a6, a7, e);
    lemma_in_either(a1 + a2 + a3 + a4 + a5 + a6 + a7, a8, e);
    lemma_when(k.s, ViewAction::Snapshot(t.snap_count), e);
    lemma_when(k.r, ViewAction::Reset, e);
    lemma_when(k.w, ViewAction::SayZebras(t.zebras_on), e);
    lemma_when(k.e, ViewAction::SayFocusPeaking(t.focus_peak_on), e);
    lemma_when(k.a, ViewAction::CaptureReference, e);
    lemma_when(k.d, ViewAction::ClearReference, e);
    lemma_when(k.comma, ViewAction::SplitLeft, e);
    lemma_when(k.period, ViewAction::SplitRight, e);
}

/// M captures in the other of the two formats, MJPEG and UYVY, and the digits from 1 to 4 apply the
/// default profile and those for streaming, for little light and for meetings.
pub proof fn capture_keys_have_their_action(s: ViewState, k: Keys)
    ensures
        ({
            let actions = capture_actions(after_keys(s, k), k);
            &&& k.m && s.mjpeg ==> actions.contains(ViewAction::SetFormat(PixelFormat::Uyvy))
            &&& k.m && !s.mjpeg ==> actions.contains(ViewAction::SetFormat(PixelFormat::Mjpeg))
            &&& !k.m ==> !actions.contains(ViewAction::SetFormat(PixelFormat::Uyvy))
                && !actions.contains(ViewAction::SetFormat(PixelFormat::Mjpeg))
            &&& k.one <==> actions.contains(ViewAction::ApplyProfile(ViewProfile::Standard))
            &&& k.two <==> actions.contains(ViewAction::ApplyProfile(ViewProfile::Streaming))
            &&& k.three <==> actions.contains(ViewAction::ApplyProfile(ViewProfile::Lowlight))
            &&& k.four <==> actions.contains(ViewAction::ApplyProfile(ViewProfile::Meeting))
        }),
        profile_name(ViewProfile::Standard) == "default"@ && profile_name(ViewProfile::Streaming)
            == "streaming"@ && profile_name(ViewProfile::Lowlight) == "lowlight"@ && profile_name(
            ViewProfile::Meeting,
        ) == "meeting"@,
{
    let t = after_keys(s, k);
    lemma_capture_actions(t, k, ViewAction::SetFormat(PixelFormat::Uyvy));
    lemma_capture_actions(t, k, ViewAction::SetFormat(PixelFormat::Mjpeg));
    lemma_capture_actions(t, k, ViewAction::ApplyProfile(ViewProfile::Standard));
    lemma_capture_actions(t, k, ViewAction::ApplyProfile(ViewProfile::Streaming));
    lemma_capture_actions(t, k, ViewAction::ApplyProfile(ViewProfile::Lowlight));
    lemma_capture_actions(t, k, ViewAction::ApplyProfile(ViewProfile::Meeting));
}

proof fn lemma_capture_actions(t: ViewState, k: Keys, e: ViewAction)
    ensures
        capture_actions(t, k).contains(e) <==> {
            ||| k.m && e == ViewAction::SetFormat(captured_format(t))
            ||| k.one && e == ViewAction::ApplyProfile(ViewProfile::Standard)
            ||| k.two && e == ViewAction::ApplyProfile(ViewProfile::Streaming)
            ||| k.three && e == ViewAction::ApplyProfile(ViewProfile::Lowlight)
            ||| k.four && e == ViewAction::ApplyProfile(ViewProfile::Meeting)
        },
{
    let a1 = when(k.m, ViewAction::SetFormat(captured_format(t)));
    let a2 = when(k.one, ViewAction::ApplyProfile(ViewProfile::Standard));
    let a3 = when(k.two, ViewAction::ApplyProfile(ViewProfile::Streaming));
    let a4 = when(k.three, ViewAction::ApplyProfile(ViewProfile::Lowlight));
    let a5 = when(k.four, ViewAction::ApplyProfile(ViewProfile::Meeting));
    lemma_in_either(a1, a2, e);
    lemma_in_either(a1 + a2, a3, e);
    lemma_in_either(a1 + a2 + a3, a4, e);
    lemma_in_either(a1 + a2 + a3 + a4, a5, e);
    lemma_when(k.m, ViewAction::SetFormat(captured_format(t)), e);
    lemma_when(k.one, ViewAction::ApplyProfile(ViewProfile::Standard), e);
    lemma_when(k.two, ViewAction::ApplyProfile(ViewProfile::Streaming), e);
    lemma_when(k.three, ViewAction::ApplyProfile(ViewProfile::Lowlight), e);
    lemma_when(k.four, ViewAction::ApplyProfile(ViewProfile::Meeting), e);
}

/// The controls are set before anything else is done, and the format and the profile come last.
pub proof fn actions_come_in_order(s: ViewState, k: Keys)
    ensures
        ({
            let t = after_keys(s, k);
            let a = control_actions(s, k).len();
            let b = a + other_actions(t, k).len();
            let all = actions_for(s, k);
            &&& all.take(a as int) == control_actions(s, k)
            &&& all.subrange(a as int, b as int) == other_actions(t, k)
            &&& all.skip(b as int) == capture_actions(t, k)
        }),
{
    let t = after_keys(s, k);
    let (x, y, z) = (control_actions(s, k), other_actions(t, k), capture_actions(t, k));
    lemma_three_parts(x, y, z);
}

proof fn lemma_three_parts(x: Seq<ViewAction>, y: Seq<ViewAction>, z: Seq<ViewAction>)
    ensures
        (x + y + z).take(x.len() as int) == x,
        (x + y + z).subrange(x.len() as int, (x.len() + y.len()) as int) == y,
        (x + y + z).skip((x.len() + y.len()) as int) == z,
{
    let all = x + y + z;
    assert(all.take(x.len() as int) =~= x);
    assert(all.subrange(x.len() as int, (x.len() + y.len()) as int) =~= y);
    assert(all.skip((x.len() + y.len()) as int) =~= z);
}

/// A badge is shown where its switch is on, the zebras before the focus, and the comparison last,
/// where there is a reference. No two badges have the same colour.
pub proof fn badges_show_what_is_on(s: ViewState, has_reference: bool)
    ensures
        ({
            let shown = shown_badges(s, has_reference);
            &&& s.zebras_on <==> shown.len() > 0 && shown[0] == Badge::Zebra
            &&& s.focus_peak_on <==> shown.contains(Badge::Focus)
            &&& has_reference <==> shown.len() > 0 && shown.last() == Badge::Comparison
            &&& s.zebras_on && s.focus_peak_on ==> shown[1] == Badge::Focus
            &&& shown.len() <= 3
        }),
        badge_color(Badge::Zebra) == 0xFF4444 && badge_color(Badge::Focus) == 0xFF00FF && badge_color(
            Badge::Comparison,
        ) == 0x00CCFF,
        badge_text(Badge::Zebra) == " ZEBRA "@ && badge_text(Badge::Focus) == " FOCUS "@ && badge_text(
            Badge::Comparison,
        ) == "  A/B  "@,
{
    let shown = shown_badges(s, has_reference);
    if s.focus_peak_on {
        assert(shown[if s.zebras_on {
            1int
        } else {
            0int
        }] == Badge::Focus);
    }
}

/// A path that is asked for is viewed. Otherwise the first device that decides does: a camera in
/// fallback mode, which cannot be viewed, or a capture device with a path and a node, which is viewed
/// by its node.
pub proof fn the_first_camera_is_viewed(path: String, devices: Seq<LocatedDevice>, i: int)
    requires
        0 <= i < devices.len(),
        forall|j: int|
            0 <= j < i ==> (#[trigger] devices[j]).fingerprint.product
                != ElgatoProduct::FacecamUsb2Fallback && !(device::exposes_uvc_capture(
                devices[j].fingerprint.product,
            ) && devices[j].sysfs_path is Some && devices[j].node is Some),
        devices[i].fingerprint.product == ElgatoProduct::FacecamUsb2Fallback || (
        device::exposes_uvc_capture(devices[i].fingerprint.product) && devices[i].sysfs_path is Some
            && devices[i].node is Some),
    ensures
        view_target(Some(path), devices) == Ok::<Seq<char>, Seq<char>>(path@),
        devices[i].fingerprint.product == ElgatoProduct::FacecamUsb2Fallback ==> view_target(
            None,
            devices,
        ) is Err,
        devices[i].fingerprint.product != ElgatoProduct::FacecamUsb2Fallback ==> view_target(
            None,
            devices,
        ) == Ok::<Seq<char>, Seq<char>>(devices[i].node->0@),
        view_target(None, Seq::empty()) is Err,
{
    seqs::lemma_first_index(devices, decides(), i);
}

/// A window of the last values keeps them in order and drops only the oldest.
pub proof fn windows_drop_the_oldest<A>(s: Seq<A>, n: nat, i: int)
    ensures
        last_of(s, n).len() <= n,
        s.len() <= n ==> last_of(s, n) == s,
        s.len() > n ==> last_of(s, n).len() == n,
        0 <= i < last_of(s, n).len() ==> last_of(s, n)[last_of(s, n).len() - 1 - i] == s[s.len() - 1
            - i],
{
}

/// The sum of the sizes grows by each size that is added.
pub proof fn sums_grow_by_each_size(sizes: Seq<usize>, size: usize)
    ensures
        sum_of(sizes.push(size), sizes.len() + 1) == sum_of(sizes, sizes.len()) + size,
        sum_of(Seq::empty(), 0) == 0,
{
    lemma_same_sum(sizes, size, sizes.len());
}

proof fn lemma_same_sum(sizes: Seq<usize>, size: usize, n: nat)
    requires
        n <= sizes.len(),
    ensures
        sum_of(sizes.push(size), n) == sum_of(sizes, n),
    decreases n,
{
    if n > 0 {
        lemma_same_sum(sizes, size, (n - 1) as nat);
    }
}

/// A control is found by its whole name.
pub proof fn controls_are_found_by_name(name: Seq<char>, c: ControlValue)
    ensures
        is_named(name)(c) <==> c.name@ == name,
{
}

} // verus!
