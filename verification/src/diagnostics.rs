//! Diagnostics bundles for remote debugging.

use crate::clock::{self, stamped_name};
use crate::device::DeviceFingerprint;
use crate::formats::FormatProbeResult;
use crate::text::{
    self, find_prefixed, join, lines_of, path_below, sorted, starts_with, strip, strip_prefixes,
    trim,
};
use crate::types::{ControlValue, DaemonStatus, DiagnosticEvent};
use vstd::prelude::*;
use vstd::string::*;

verus! {

/// A complete diagnostics bundle for remote debugging
#[derive(Debug, Clone)]
pub struct DiagnosticsBundle {
    /// When the bundle was made, in seconds since the start of 1970.
    pub generated_at: i64,
    pub system: SystemInfo,
    pub device: Option<DeviceFingerprint>,
    pub daemon_status: Option<DaemonStatus>,
    pub controls: Vec<ControlValue>,
    /// The USB topology, as a JSON text.
    pub usb_topology: Option<String>,
    pub v4l2_devices: Vec<String>,
    pub kernel_modules: KernelModuleInfo,
    pub recent_events: Vec<DiagnosticEvent>,
    pub config_files: Vec<ConfigFile>,
    pub format_probes: Vec<FormatProbeResult>,
}

#[derive(Debug, Clone)]
pub struct SystemInfo {
    pub hostname: String,
    pub kernel_version: String,
    pub os_release: String,
    pub ubuntu_version: String,
    pub uptime_secs: u64,
}

#[derive(Debug, Clone)]
pub struct KernelModuleInfo {
    pub uvcvideo_loaded: bool,
    pub uvcvideo_version: Option<String>,
    pub v4l2loopback_loaded: bool,
    pub v4l2loopback_version: Option<String>,
    pub v4l2loopback_params: Option<String>,
}

#[derive(Debug, Clone)]
pub struct ConfigFile {
    pub path: String,
    pub content: String,
}

// ---------------------------------------------------------------------------------------------
// The system
// ---------------------------------------------------------------------------------------------

/// What the files that describe a system hold, where they could be read, and how long it has been
/// up.
#[derive(Debug, Clone)]
pub struct SystemFiles {
    pub hostname: Option<String>,
    pub version: Option<String>,
    pub os_release: Option<String>,
    pub uptime_secs: u64,
}

/// What a file holds; one that cannot be read counts as empty.
pub open spec fn content_of(file: Option<String>) -> Seq<char> {
    match file {
        Some(content) => content@,
        None => Seq::empty(),
    }
}

/// The value of a variable in a file of assignments, without the quotes around it: that of the
/// first line that assigns it, or nothing.
pub open spec fn assigned(content: Seq<char>, assignment: Seq<char>) -> Seq<char> {
    let all = text::lines(content);
    let i = text::first_with_prefix(all, assignment);
    if 0 <= i < all.len() {
        text::stripped(text::without_prefixes(all[i], assignment), '"')
    } else {
        Seq::empty()
    }
}

fn readable(file: &Option<String>) -> (r: &str)
    ensures
        r@ == content_of(*file),
{
    match file {
        Some(content) => content.as_str(),
        None => {
            proof {
                reveal_strlit("");
                assert(""@ =~= Seq::empty());
            }
            ""
        },
    }
}

fn value_of(content: &str, assignment: &str) -> (r: String)
    ensures
        r@ == assigned(content@, assignment@),
{
    let all = lines_of(content);
    let i = find_prefixed(&all, assignment);
    if i < all.len() {
        let value = strip_prefixes(all[i].as_str(), assignment);
        strip(value.as_str(), '"')
    } else {
        proof {
            reveal_strlit("");
            assert(""@ =~= Seq::empty());
        }
        "".to_owned()
    }
}

/// Collect system information
pub fn collect_system_info(files: &SystemFiles) -> (r: SystemInfo)
    ensures
        r.hostname@ == text::trimmed(content_of(files.hostname)),
        r.kernel_version@ == text::trimmed(content_of(files.version)),
        r.os_release@ == assigned(content_of(files.os_release), "PRETTY_NAME="@),
        r.ubuntu_version@ == assigned(content_of(files.os_release), "VERSION_ID="@),
        r.uptime_secs == files.uptime_secs,
{
    let os_release = readable(&files.os_release);
    SystemInfo {
        hostname: trim(readable(&files.hostname)),
        kernel_version: trim(readable(&files.version)),
        os_release: value_of(os_release, "PRETTY_NAME="),
        ubuntu_version: value_of(os_release, "VERSION_ID="),
        uptime_secs: files.uptime_secs,
    }
}

// ---------------------------------------------------------------------------------------------
// Kernel modules
// ---------------------------------------------------------------------------------------------

/// A parameter of a kernel module: its name, and its value where it could be read.
#[derive(Debug, Clone)]
pub struct ModuleParam {
    pub name: String,
    pub value: Option<String>,
}

/// What is known of the kernel modules.
#[derive(Debug, Clone)]
pub struct ModuleFiles {
    /// The list of loaded modules.
    pub modules: Option<String>,
    pub uvcvideo_version: Option<String>,
    pub v4l2loopback_version: Option<String>,
    /// The parameters of v4l2loopback, where it has any.
    pub v4l2loopback_params: Option<Vec<ModuleParam>>,
}

/// Whether the list of loaded modules has a line that starts with a name.
pub open spec fn is_loaded(modules: Seq<char>, name: Seq<char>) -> bool {
    let all = text::lines(modules);
    exists|i: int| 0 <= i < all.len() && text::has_prefix(#[trigger] all[i], name)
}

/// The assignments of the parameters that could be read.
pub open spec fn param_lines(params: Seq<ModuleParam>) -> Seq<Seq<char>>
    decreases params.len(),
{
    if params.len() == 0 {
        Seq::empty()
    } else {
        let before = param_lines(params.drop_last());
        match params.last().value {
            Some(value) => before.push(params.last().name@ + "="@ + text::trimmed(value@)),
            None => before,
        }
    }
}

/// The parameters as one text: their assignments in order, one per line.
pub open spec fn params_text(params: Seq<ModuleParam>) -> Seq<char> {
    text::joined(text::in_order(param_lines(params)), "\n"@)
}

/// What a version file holds, without the space around it.
pub open spec fn version_in(file: Option<String>) -> Option<Seq<char>> {
    match file {
        Some(content) => Some(text::trimmed(content@)),
        None => None,
    }
}

fn read_module_param(file: &Option<String>) -> (r: Option<String>)
    ensures
        text::opt_view(r) == version_in(*file),
{
    match file {
        Some(content) => Some(trim(content.as_str())),
        None => None,
    }
}

fn loaded(modules: &str, name: &str) -> (r: bool)
    ensures
        r == is_loaded(modules@, name@),
{
    let all = lines_of(modules);
    for i in 0..all.len()
        invariant
            text::views(all@) == text::lines(modules@),
            forall|j: int| 0 <= j < i ==> !text::has_prefix(#[trigger] text::views(all@)[j], name@),
    {
        if starts_with(all[i].as_str(), name) {
            proof {
                assert(text::has_prefix(text::views(all@)[i as int], name@));
            }
            return true;
        }
        proof {
            assert(text::views(all@)[i as int] == all@[i as int]@);
        }
    }
    false
}

/// The parameters of a module as one text: their assignments in order, one per line. Parameters
/// that cannot be read are left out.
pub fn collect_module_params(params: &Vec<ModuleParam>) -> (r: String)
    ensures
        r@ == params_text(params@),
{
    let mut lines: Vec<String> = Vec::new();
    proof {
        assert(text::views(lines@) =~= Seq::empty());
    }
    for i in 0..params.len()
        invariant
            text::views(lines@) == param_lines(params@.take(i as int)),
    {
        broadcast use text::lemma_views_push;

        if let Some(value) = &params[i].value {
            let mut line = params[i].name.clone();
            line.append("=");
            line.append(trim(value.as_str()).as_str());
            lines.push(line);
        }
        proof {
            assert(params@.take(i + 1).drop_last() =~= params@.take(i as int));
        }
    }
    proof {
        assert(params@.take(params@.len() as int) =~= params@);
    }
    let lines = sorted(lines);
    join(&lines, "\n")
}

/// Check kernel module status
pub fn collect_kernel_module_info(files: &ModuleFiles) -> (r: KernelModuleInfo)
    ensures
        r.uvcvideo_loaded == is_loaded(content_of(files.modules), "uvcvideo "@),
        r.v4l2loopback_loaded == is_loaded(content_of(files.modules), "v4l2loopback "@),
        text::opt_view(r.uvcvideo_version) == version_in(files.uvcvideo_version),
        text::opt_view(r.v4l2loopback_version) == version_in(files.v4l2loopback_version),
        text::opt_view(r.v4l2loopback_params) == match files.v4l2loopback_params {
            Some(params) if r.v4l2loopback_loaded => Some(params_text(params@)),
            _ => None,
        },
{
    let modules = readable(&files.modules);
    let v4l2loopback_loaded = loaded(modules, "v4l2loopback ");
    let v4l2loopback_params = if v4l2loopback_loaded {
        match &files.v4l2loopback_params {
            Some(params) => Some(collect_module_params(params)),
            None => None,
        }
    } else {
        None
    };
    KernelModuleInfo {
        uvcvideo_loaded: loaded(modules, "uvcvideo "),
        uvcvideo_version: read_module_param(&files.uvcvideo_version),
        v4l2loopback_loaded,
        v4l2loopback_version: read_module_param(&files.v4l2loopback_version),
        v4l2loopback_params,
    }
}

// ---------------------------------------------------------------------------------------------
// Device nodes and configuration files
// ---------------------------------------------------------------------------------------------

/// The paths of the video nodes among the entries of the device directory, in their order there.
pub open spec fn video_nodes(names: Seq<Seq<char>>) -> Seq<Seq<char>>
    decreases names.len(),
{
    if names.len() == 0 {
        Seq::empty()
    } else {
        let before = video_nodes(names.drop_last());
        if text::has_prefix(names.last(), "video"@) {
            before.push("/dev/"@ + names.last())
        } else {
            before
        }
    }
}

/// List all V4L2 device nodes, in order. `names` are the entries of the device directory.
pub fn list_v4l2_devices(names: &Vec<String>) -> (r: Vec<String>)
    ensures
        text::views(r@) == text::in_order(video_nodes(text::views(names@))),
{
    let mut devices: Vec<String> = Vec::new();
    proof {
        assert(text::views(devices@) =~= Seq::empty());
    }
    for i in 0..names.len()
        invariant
            text::views(devices@) == video_nodes(text::views(names@).take(i as int)),
    {
        broadcast use text::lemma_views_push;

        let ghost all = text::views(names@);
        if starts_with(names[i].as_str(), "video") {
            let mut path = "/dev/".to_owned();
            path.append(names[i].as_str());
            devices.push(path);
        }
        proof {
            assert(all.take(i + 1).drop_last() =~= all.take(i as int));
            assert(all.take(i + 1).last() == names@[i as int]@);
        }
    }
    proof {
        assert(text::views(names@).take(names@.len() as int) =~= text::views(names@));
    }
    sorted(devices)
}

/// The configuration files that a bundle holds, where they can be read. `home` is the home
/// directory, where it is known.
pub fn config_paths(home: &Option<String>) -> (r: Vec<String>)
    ensures
        text::views(r@) == seq![
            "/etc/modprobe.d/v4l2loopback.conf"@,
            "/etc/modules-load.d/v4l2loopback.conf"@,
            "/etc/udev/rules.d/99-facecam.rules"@,
            text::below(
                text::below(text::below(content_of(*home), ".config"@), "facecam"@),
                "daemon.toml"@,
            ),
        ],
{
    let config = path_below(readable(home), ".config");
    let facecam = path_below(config.as_str(), "facecam");
    let user = path_below(facecam.as_str(), "daemon.toml");
    let mut out: Vec<String> = Vec::new();
    out.push("/etc/modprobe.d/v4l2loopback.conf".to_owned());
    out.push("/etc/modules-load.d/v4l2loopback.conf".to_owned());
    out.push("/etc/udev/rules.d/99-facecam.rules".to_owned());
    out.push(user);
    proof {
        assert(text::views(out@) =~= seq![
            "/etc/modprobe.d/v4l2loopback.conf"@,
            "/etc/modules-load.d/v4l2loopback.conf"@,
            "/etc/udev/rules.d/99-facecam.rules"@,
            text::below(
                text::below(text::below(content_of(*home), ".config"@), "facecam"@),
                "daemon.toml"@,
            ),
        ]);
    }
    out
}

/// The paths and contents of the files that could be read, in order.
pub open spec fn readable_files(files: Seq<(String, Option<String>)>) -> Seq<ConfigFile>
    decreases files.len(),
{
    if files.len() == 0 {
        Seq::empty()
    } else {
        let before = readable_files(files.drop_last());
        match files.last().1 {
            Some(content) => before.push(ConfigFile { path: files.last().0, content }),
            None => before,
        }
    }
}

/// The configuration files that could be read. Each file comes with its path and with what it
/// holds, where it could be read.
pub fn collect_config_files(files: &Vec<(String, Option<String>)>) -> (r: Vec<ConfigFile>)
    ensures
        r@ == readable_files(files@),
{
    let mut out: Vec<ConfigFile> = Vec::new();
    for i in 0..files.len()
        invariant
            out@ == readable_files(files@.take(i as int)),
    {
        if let Some(content) = &files[i].1 {
            out.push(ConfigFile { path: files[i].0.clone(), content: content.clone() });
        }
        proof {
            assert(files@.take(i + 1).drop_last() =~= files@.take(i as int));
        }
    }
    proof {
        assert(files@.take(files@.len() as int) =~= files@);
    }
    out
}

// ---------------------------------------------------------------------------------------------
// Bundles
// ---------------------------------------------------------------------------------------------

/// A home directory, or the directory for temporary files where it is not known.
pub open spec fn home_or_tmp(home: Option<String>) -> Seq<char> {
    match home {
        Some(h) => h@,
        None => "/tmp"@,
    }
}

/// The directory below a home directory in which data of a kind is kept.
pub open spec fn data_dir(home: Option<String>, kind: Seq<char>) -> Seq<char> {
    text::below(
        text::below(
            text::below(text::below(home_or_tmp(home), ".local"@), "share"@),
            "facecam"@,
        ),
        kind,
    )
}

/// The directory below a home directory in which data of a kind is kept.
pub fn data_directory(home: &Option<String>, kind: &str) -> (r: String)
    ensures
        r@ == data_dir(*home, kind@),
{
    let base = match home {
        Some(h) => h.as_str(),
        None => "/tmp",
    };
    let local = path_below(base, ".local");
    let share = path_below(local.as_str(), "share");
    let facecam = path_below(share.as_str(), "facecam");
    path_below(facecam.as_str(), kind)
}

/// The directory in which bundles are kept.
pub fn bundle_dir(home: &Option<String>) -> (r: String)
    ensures
        r@ == data_dir(*home, "diagnostics"@),
{
    data_directory(home, "diagnostics")
}

/// The path that a bundle is written to at a point in time, in seconds since the start of 1970;
/// nothing where the calendar does not reach.
pub fn export_bundle(home: &Option<String>, secs: i64) -> (r: Option<String>)
    ensures
        match r {
            Some(path) => clock::utc_stamp(secs) is Some && path@ == text::below(
                data_dir(*home, "diagnostics"@),
                clock::stamped("facecam-diag-"@, clock::utc_stamp(secs)->0, ".json"@),
            ),
            None => clock::utc_stamp(secs) is None,
        },
        0 <= secs <= 253_402_300_799 ==> r is Some,
{
    let dir = bundle_dir(home);
    match stamped_name("facecam-diag-", secs, ".json") {
        Some(name) => Some(path_below(dir.as_str(), name.as_str())),
        None => None,
    }
}

/// Create a minimal diagnostics bundle from available information
pub fn create_bundle(
    generated_at: i64,
    device: Option<DeviceFingerprint>,
    status: Option<DaemonStatus>,
    controls: Vec<ControlValue>,
    events: Vec<DiagnosticEvent>,
    system: SystemInfo,
    v4l2_devices: Vec<String>,
    kernel_modules: KernelModuleInfo,
    config_files: Vec<ConfigFile>,
) -> (r: DiagnosticsBundle)
    ensures
        r.generated_at == generated_at,
        r.system == system,
        r.device == device,
        r.daemon_status == status,
        r.controls == controls,
        r.usb_topology is None,
        r.v4l2_devices == v4l2_devices,
        r.kernel_modules == kernel_modules,
        r.recent_events == events,
        r.config_files == config_files,
        r.format_probes@.len() == 0,
{
    DiagnosticsBundle {
        generated_at,
        system,
        device,
        daemon_status: status,
        controls,
        usb_topology: None,
        v4l2_devices,
        kernel_modules,
        recent_events: events,
        config_files,
        format_probes: Vec::new(),
    }
}

// ---------------------------------------------------------------------------------------------
// Laws
// ---------------------------------------------------------------------------------------------

/// Every file that is kept in a bundle is one of the files that could be read, with its content.
pub proof fn kept_files_were_read(files: Seq<(String, Option<String>)>, i: int)
    requires
        0 <= i < readable_files(files).len(),
    ensures
        files.contains((readable_files(files)[i].path, Some(readable_files(files)[i].content))),
    decreases files.len(),
{
    if files.len() > 0 {
        let before = readable_files(files.drop_last());
        if i < before.len() {
            kept_files_were_read(files.drop_last(), i);
            let entry = (before[i].path, Some(before[i].content));
            let k = choose|k: int| 0 <= k < files.drop_last().len() && files.drop_last()[k] == entry;
            assert(files[k] == entry);
        } else {
            assert(files[files.len() - 1] == files.last());
        }
    }
}

/// Every listed node is a video node of the device directory.
pub proof fn listed_nodes_are_video_nodes(names: Seq<Seq<char>>, i: int)
    requires
        0 <= i < video_nodes(names).len(),
    ensures
        exists|k: int|
            0 <= k < names.len() && text::has_prefix(#[trigger] names[k], "video"@) && video_nodes(
                names,
            )[i] == "/dev/"@ + names[k],
    decreases names.len(),
{
    if names.len() > 0 {
        let before = video_nodes(names.drop_last());
        if i < before.len() {
            listed_nodes_are_video_nodes(names.drop_last(), i);
            let k = choose|k: int|
                0 <= k < names.drop_last().len() && text::has_prefix(
                    #[trigger] names.drop_last()[k],
                    "video"@,
                ) && before[i] == "/dev/"@ + names.drop_last()[k];
            assert(names[k] == names.drop_last()[k]);
            assert(video_nodes(names)[i] == before[i]);
        } else {
            assert(names[names.len() - 1] == names.last());
        }
    }
}

/// A value that is assigned in quotes on the first line is read without the quotes; a line that does
/// not begin with the assignment is passed over; and where no line is left, nothing is assigned.
pub proof fn quoted_values_are_read(
    assignment: Seq<char>,
    value: Seq<char>,
    other: Seq<char>,
    rest: Seq<char>,
)
    requires
        assignment.len() > 0,
        assignment[0] != '"',
        forall|i: int| 0 <= i < assignment.len() ==> #[trigger] assignment[i] != '\n',
        forall|i: int| 0 <= i < value.len() ==> #[trigger] value[i] != '\n' && value[i] != '"',
        forall|i: int| 0 <= i < other.len() ==> #[trigger] other[i] != '\n',
        other.len() > 0 ==> other.last() != '\r',
        !text::has_prefix(other, assignment),
    ensures
        assigned(assignment + seq!['"'] + value + seq!['"'] + seq!['\n'] + rest, assignment) == value,
        assigned(other + seq!['\n'] + rest, assignment) == assigned(rest, assignment),
        assigned(Seq::empty(), assignment).len() == 0,
{
    let line = assignment + seq!['"'] + value + seq!['"'];
    text::lines_end_at_line_feeds(line, rest);
    let quoted = seq!['"'] + value + seq!['"'];
    assert(line =~= assignment + quoted);
    assert(line.take(assignment.len() as int) =~= assignment);
    let all = seq![line] + text::lines(rest);
    assert(all[0] == line);
    assert(text::first_with_prefix(all, assignment) == 0);
    text::prefixes_are_taken_off(quoted, assignment);
    assert(!text::has_prefix(quoted, assignment)) by {
        if text::has_prefix(quoted, assignment) {
            assert(quoted.take(assignment.len() as int)[0] == '"');
        }
    }
    let (a, b) = text::stripping_takes_the_outer_characters(quoted, '"');
    assert(quoted[0] == '"' && quoted[value.len() as int + 1] == '"');
    assert forall|i: int| 1 <= i <= value.len() implies #[trigger] quoted[i] != '"' by {
        assert(quoted[i] == value[i - 1]);
    }
    if value.len() > 0 {
        assert(a == 1) by {
            if a > 1 {
                assert(quoted[1] == '"');
            }
            if a == 0 {
                assert(b >= 2) by {
                    if b <= 1 {
                        assert(quoted[1] == '"');
                    }
                }
            }
        }
        assert(b == value.len() + 1) by {
            if b <= value.len() {
                assert(quoted[value.len() as int] == '"');
            }
        }
        assert(quoted.subrange(a, b) =~= value);
    } else {
        assert(a == b);
        assert(quoted.subrange(a, b) =~= value);
    }
    text::lines_end_at_line_feeds(other, rest);
    let more = seq![other] + text::lines(rest);
    assert(more.drop_first() =~= text::lines(rest));
    text::first_prefix_is_first(text::lines(rest), assignment);
}

/// A module is loaded where a line begins with its name: the first line, or one behind it.
pub proof fn modules_are_found_on_their_line(line: Seq<char>, rest: Seq<char>, name: Seq<char>)
    requires
        forall|i: int| 0 <= i < line.len() ==> #[trigger] line[i] != '\n',
        line.len() > 0 ==> line.last() != '\r',
    ensures
        is_loaded(line + seq!['\n'] + rest, name) <==> text::has_prefix(line, name) || is_loaded(
            rest,
            name,
        ),
        !is_loaded(Seq::empty(), name),
{
    text::lines_end_at_line_feeds(line, rest);
    let all = seq![line] + text::lines(rest);
    assert(all[0] == line);
    if is_loaded(rest, name) {
        let i = choose|i: int|
            0 <= i < text::lines(rest).len() && text::has_prefix(
                #[trigger] text::lines(rest)[i],
                name,
            );
        assert(all[i + 1] == text::lines(rest)[i]);
    }
    if is_loaded(line + seq!['\n'] + rest, name) && !text::has_prefix(line, name) {
        let i = choose|i: int| 0 <= i < all.len() && text::has_prefix(#[trigger] all[i], name);
        assert(all[i] == text::lines(rest)[i - 1]);
    }
}

/// A parameter with a value adds its name, an equals sign and its value without spaces around it; a
/// parameter that cannot be read adds nothing. The lines are in alphabetical order.
pub proof fn parameters_are_listed(params: Seq<ModuleParam>, name: String, value: String)
    ensures
        param_lines(params.push(ModuleParam { name, value: Some(value) })) == param_lines(params).push(
            name@ + seq!['='] + text::trimmed(value@),
        ),
        param_lines(params.push(ModuleParam { name, value: None })) == param_lines(params),
        param_lines(Seq::empty()).len() == 0,
        params_text(seq![ModuleParam { name, value: Some(value) }]) == name@ + seq!['=']
            + text::trimmed(value@),
        text::is_sorting_of(text::in_order(param_lines(params)), param_lines(params)),
        params_text(params) == text::joined(text::in_order(param_lines(params)), seq!['\n']),
{
    reveal_strlit("=");
    reveal_strlit("\n");
    assert("="@ =~= seq!['=']);
    assert("\n"@ =~= seq!['\n']);
    let some = ModuleParam { name, value: Some(value) };
    let none = ModuleParam { name, value: None };
    assert(params.push(some).drop_last() =~= params);
    assert(params.push(none).drop_last() =~= params);
    text::texts_can_be_put_in_order(param_lines(params));
    assert(seq![some].drop_last() =~= Seq::empty());
    let line = name@ + seq!['='] + text::trimmed(value@);
    assert(param_lines(Seq::empty()) =~= Seq::<Seq<char>>::empty());
    assert(param_lines(seq![some]) =~= seq![line]);
    assert(text::is_sorting_of(seq![line], seq![line]));
    text::sorted_lists_are_unique(seq![line], seq![line]);
}

/// A name that begins with the letters of video is listed below /dev, and no other name is.
pub proof fn video_names_are_listed(names: Seq<Seq<char>>, name: Seq<char>)
    ensures
        text::has_prefix(name, seq!['v', 'i', 'd', 'e', 'o']) ==> video_nodes(names.push(name))
            == video_nodes(names).push(seq!['/', 'd', 'e', 'v', '/'] + name),
        !text::has_prefix(name, seq!['v', 'i', 'd', 'e', 'o']) ==> video_nodes(names.push(name))
            == video_nodes(names),
        video_nodes(Seq::empty()).len() == 0,
{
    reveal_strlit("video");
    reveal_strlit("/dev/");
    assert("video"@ =~= seq!['v', 'i', 'd', 'e', 'o']);
    assert("/dev/"@ =~= seq!['/', 'd', 'e', 'v', '/']);
    assert(names.push(name).drop_last() =~= names);
}

/// A file that was read is kept with its own path and its own content; one that was not is left out.
pub proof fn read_files_are_kept(
    files: Seq<(String, Option<String>)>,
    path: String,
    content: String,
)
    ensures
        readable_files(files.push((path, Some(content)))) == readable_files(files).push(
            ConfigFile { path, content },
        ),
        readable_files(files.push((path, None))) == readable_files(files),
        readable_files(Seq::empty()).len() == 0,
{
    assert(files.push((path, Some(content))).drop_last() =~= files);
    assert(files.push((path, None)).drop_last() =~= files);
}

/// Data lie under the home directory, in .local/share/facecam; without a home, under /tmp.
pub proof fn data_lie_under_home(home: String, kind: Seq<char>)
    requires
        home@.len() > 0,
        home@.last() != '/',
    ensures
        data_dir(Some(home), kind) == home@ + "/.local/share/facecam/"@ + kind,
        data_dir(None, kind) == "/tmp/.local/share/facecam/"@ + kind,
{
    reveal_strlit("/.local/share/facecam/");
    reveal_strlit("/tmp/.local/share/facecam/");
    reveal_strlit(".local");
    reveal_strlit("share");
    reveal_strlit("facecam");
    reveal_strlit("/tmp");
    lemma_data_dir(home@, kind);
    lemma_data_dir("/tmp"@, kind);
    assert("/tmp"@ + "/.local/share/facecam/"@ =~= "/tmp/.local/share/facecam/"@);
}

proof fn lemma_data_dir(base: Seq<char>, kind: Seq<char>)
    requires
        base.len() > 0,
        base.last() != '/',
    ensures
        text::below(
            text::below(text::below(text::below(base, ".local"@), "share"@), "facecam"@),
            kind,
        ) == base + "/.local/share/facecam/"@ + kind,
{
    reveal_strlit("/.local/share/facecam/");
    reveal_strlit(".local");
    reveal_strlit("share");
    reveal_strlit("facecam");
    text::names_stand_behind_one_slash(base, ".local"@);
    let a = base + seq!['/'] + ".local"@;
    assert(a.last() == 'l');
    text::names_stand_behind_one_slash(a, "share"@);
    let b = a + seq!['/'] + "share"@;
    assert(b.last() == 'e');
    text::names_stand_behind_one_slash(b, "facecam"@);
    let c = b + seq!['/'] + "facecam"@;
    assert(c.last() == 'm');
    text::names_stand_behind_one_slash(c, kind);
    assert(c + seq!['/'] =~= base + "/.local/share/facecam/"@);
}

/// A file that cannot be read counts as empty, and a version that cannot be read is not known.
pub proof fn unread_files_are_empty(content: String)
    ensures
        content_of(Some(content)) == content@,
        content_of(None).len() == 0,
        version_in(Some(content)) == Some(text::trimmed(content@)),
        version_in(None) is None,
{
}

} // verus!
