//! What the control client prints.

use crate::ipc::{self, DaemonResponse};
use crate::profiles::Profile;
use crate::text::{self, push_decimal, push_padded_left, push_padded_right, push_signed, signed_text, truth_text};
use crate::types::{self, ControlValue, DaemonStatus};
use vstd::prelude::*;
use vstd::string::*;

verus! {

/// What the client does with an answer of the daemon.
#[derive(Debug, Clone)]
pub enum Outcome {
    /// Print this text.
    Print(String),
    /// Report that the daemon refused the command, with these words, and fail.
    Refused(String),
    /// Report that the answer does not belong to the command, and fail.
    Unexpected,
}

/// What the client does with an answer, with texts as character sequences.
pub ghost enum OutcomeModel {
    Print(Seq<char>),
    Refused(Seq<char>),
    Unexpected,
}

impl View for Outcome {
    type V = OutcomeModel;

    open spec fn view(&self) -> OutcomeModel {
        match *self {
            Outcome::Print(t) => OutcomeModel::Print(t@),
            Outcome::Refused(words) => OutcomeModel::Refused(words@),
            Outcome::Unexpected => OutcomeModel::Unexpected,
        }
    }
}

/// What is done with an answer that is none of the ones that are waited for.
pub open spec fn otherwise(response: DaemonResponse) -> OutcomeModel {
    match response {
        DaemonResponse::Error(words) => OutcomeModel::Refused(words@),
        _ => OutcomeModel::Unexpected,
    }
}

/// A text, or `none` where there is none.
pub open spec fn or_none(o: Option<String>) -> Seq<char> {
    match o {
        Some(s) => s@,
        None => "none"@,
    }
}

fn text_or_none(o: &Option<String>) -> (r: &str)
    ensures
        r@ == or_none(*o),
{
    match o {
        Some(s) => s.as_str(),
        None => "none",
    }
}

/// The report on the status of the daemon. `mode` is the text of the active mode.
pub open spec fn status_text(s: DaemonStatus, mode: Option<String>) -> Seq<char> {
    "=== Facecam Daemon Status ===\n\n  State:          "@ + types::pipeline_text(s.state) + "\n"@
        + match s.product {
        Some(product) => "  Product:        "@ + product@ + "\n"@,
        None => Seq::empty(),
    } + "  Health:         "@ + types::health_text(s.health) + "\n  Uptime:         "@
        + text::decimal(s.uptime_secs as nat) + "s\n  Connected:      "@ + text::truth(
        s.device_connected,
    ) + "\n  Mode:           "@ + or_none(mode) + "\n  Frames:         captured="@
        + text::decimal(s.frames_captured as nat) + " written="@ + text::decimal(
        s.frames_written as nat,
    ) + " dropped="@ + text::decimal(s.frames_dropped as nat) + "\n  Recoveries:     "@
        + text::decimal(s.recovery_count as nat) + "\n  Source:         "@ + or_none(
        s.source_device,
    ) + "\n  Sink:           "@ + or_none(s.sink_device) + "\n  Profile:        "@ + or_none(
        s.active_profile,
    ) + "\n"@ + match s.last_error {
        Some(words) => "  Last Error:     "@ + words@ + "\n"@,
        None => Seq::empty(),
    }
}

/// The report on the status of the daemon.
pub fn status_report(s: &DaemonStatus, mode: &Option<String>) -> (r: String)
    ensures
        r@ == status_text(*s, *mode),
{
    let mut out = "=== Facecam Daemon Status ===\n\n  State:          ".to_owned();
    out.append(s.state.to_text());
    out.append("\n");
    let ghost head = out@;
    if let Some(product) = &s.product {
        out.append("  Product:        ");
        out.append(product.as_str());
        out.append("\n");
    }
    proof {
        assert(out@ =~= head + match s.product {
            Some(product) => "  Product:        "@ + product@ + "\n"@,
            None => Seq::empty(),
        });
    }
    out.append("  Health:         ");
    out.append(s.health.to_text());
    out.append("\n  Uptime:         ");
    push_decimal(&mut out, s.uptime_secs);
    out.append("s\n  Connected:      ");
    out.append(truth_text(s.device_connected));
    out.append("\n  Mode:           ");
    out.append(text_or_none(mode));
    out.append("\n  Frames:         captured=");
    push_decimal(&mut out, s.frames_captured);
    out.append(" written=");
    push_decimal(&mut out, s.frames_written);
    out.append(" dropped=");
    push_decimal(&mut out, s.frames_dropped);
    out.append("\n  Recoveries:     ");
    push_decimal(&mut out, s.recovery_count as u64);
    out.append("\n  Source:         ");
    out.append(text_or_none(&s.source_device));
    out.append("\n  Sink:           ");
    out.append(text_or_none(&s.sink_device));
    out.append("\n  Profile:        ");
    out.append(text_or_none(&s.active_profile));
    out.append("\n");
    let ghost body = out@;
    if let Some(words) = &s.last_error {
        out.append("  Last Error:     ");
        out.append(words.as_str());
        out.append("\n");
    }
    proof {
        assert(out@ =~= body + match s.last_error {
            Some(words) => "  Last Error:     "@ + words@ + "\n"@,
            None => Seq::empty(),
        });
    }
    out
}

/// What is done with the answer to a question for one control.
pub fn control_outcome(response: &DaemonResponse) -> (r: Outcome)
    ensures
        r@ == match *response {
            DaemonResponse::ControlValue { name, value } => OutcomeModel::Print(
                name@ + " = "@ + text::signed_decimal(value as int) + "\n"@,
            ),
            _ => otherwise(*response),
        },
{
    match response {
        DaemonResponse::ControlValue { name, value } => {
            let mut out = name.clone();
            out.append(" = ");
            push_signed(&mut out, *value);
            out.append("\n");
            Outcome::Print(out)
        },
        DaemonResponse::Error(words) => Outcome::Refused(words.clone()),
        _ => Outcome::Unexpected,
    }
}

/// The line of one control in a list.
pub open spec fn control_line(c: ControlValue) -> Seq<char> {
    "  "@ + text::padded_right(c.name@, 30) + " = "@ + text::padded_left(
        text::signed_decimal(c.value as int),
        6,
        ' ',
    ) + "  (range ["@ + text::signed_decimal(c.minimum as int) + ", "@ + text::signed_decimal(
        c.maximum as int,
    ) + "], default "@ + text::signed_decimal(c.default as int) + ")\n"@
}

/// The lines of the first `n` controls.
pub open spec fn control_lines(controls: Seq<ControlValue>, n: nat) -> Seq<char>
    decreases n,
{
    if n == 0 {
        Seq::empty()
    } else {
        control_lines(controls, (n - 1) as nat) + control_line(controls[n - 1])
    }
}

fn push_control_line(out: &mut String, c: &ControlValue)
    ensures
        final(out)@ == old(out)@ + control_line(*c),
{
    let ghost before = out@;
    out.append("  ");
    push_padded_right(out, c.name.as_str(), 30);
    out.append(" = ");
    let value = signed_text(c.value);
    push_padded_left(out, value.as_str(), 6, ' ');
    out.append("  (range [");
    push_signed(out, c.minimum);
    out.append(", ");
    push_signed(out, c.maximum);
    out.append("], default ");
    push_signed(out, c.default);
    out.append(")\n");
    proof {
        assert(out@ =~= before + control_line(*c));
    }
}

/// What is done with the answer to a question for all controls.
pub fn controls_outcome(response: &DaemonResponse) -> (r: Outcome)
    ensures
        r@ == match *response {
            DaemonResponse::Controls(controls) => OutcomeModel::Print(
                "=== Camera Controls ===\n\n"@ + control_lines(controls@, controls@.len()),
            ),
            _ => otherwise(*response),
        },
{
    match response {
        DaemonResponse::Controls(controls) => {
            let mut out = "=== Camera Controls ===\n\n".to_owned();
            let ghost head = out@;
            proof {
                assert(head + control_lines(controls@, 0) =~= head);
            }
            for i in 0..controls.len()
                invariant
                    out@ == head + control_lines(controls@, i as nat),
            {
                push_control_line(&mut out, &controls[i]);
                proof {
                    assert(out@ =~= head + control_lines(controls@, (i + 1) as nat));
                }
            }
            Outcome::Print(out)
        },
        DaemonResponse::Error(words) => Outcome::Refused(words.clone()),
        _ => Outcome::Unexpected,
    }
}

/// What is done with the answer to a request for a diagnostics bundle.
pub fn diagnostics_outcome(response: &DaemonResponse) -> (r: Outcome)
    ensures
        r@ == match *response {
            DaemonResponse::DiagnosticsExported(path) => OutcomeModel::Print(
                "Diagnostics exported to: "@ + path@ + "\n"@,
            ),
            _ => otherwise(*response),
        },
{
    match response {
        DaemonResponse::DiagnosticsExported(path) => {
            let mut out = "Diagnostics exported to: ".to_owned();
            out.append(path.as_str());
            out.append("\n");
            Outcome::Print(out)
        },
        DaemonResponse::Error(words) => Outcome::Refused(words.clone()),
        _ => Outcome::Unexpected,
    }
}

/// What is done with the answer to a command that has nothing to show: its message is printed, or
/// `OK` where it has none.
pub fn print_simple_response(response: &DaemonResponse) -> (r: Outcome)
    ensures
        r@ == match *response {
            DaemonResponse::Success(Some(message)) => OutcomeModel::Print(message@ + "\n"@),
            DaemonResponse::Success(None) => OutcomeModel::Print("OK\n"@),
            _ => otherwise(*response),
        },
{
    match response {
        DaemonResponse::Success(Some(message)) => {
            let mut out = message.clone();
            out.append("\n");
            Outcome::Print(out)
        },
        DaemonResponse::Success(None) => Outcome::Print("OK\n".to_owned()),
        DaemonResponse::Error(words) => Outcome::Refused(words.clone()),
        _ => Outcome::Unexpected,
    }
}

/// The product family that the daemon has resolved, from its answer to a question for its status.
/// Falls back to `facecam` when the daemon is unreachable or has not yet detected a device,
/// preserving original-Facecam behavior on machines without a Pro.
pub fn family_from_daemon(response: &Option<DaemonResponse>) -> (r: String)
    ensures
        r@ == match *response {
            Some(DaemonResponse::Status(status)) if status.product_family is Some =>
                status.product_family->0@,
            _ => ipc::DEFAULT_FAMILY@,
        },
{
    match response {
        Some(DaemonResponse::Status(status)) => match &status.product_family {
            Some(family) => family.clone(),
            None => ipc::DEFAULT_FAMILY.to_owned(),
        },
        _ => ipc::DEFAULT_FAMILY.to_owned(),
    }
}

/// The line of one profile in a list: its name, and its description where it could be loaded.
pub fn profile_line(name: &str, description: &Option<String>) -> (r: String)
    ensures
        r@ == match *description {
            Some(d) => "  "@ + text::padded_right(name@, 15) + " — "@ + d@ + "\n"@,
            None => "  "@ + name@ + "\n"@,
        },
{
    let mut out = "  ".to_owned();
    match description {
        Some(d) => {
            push_padded_right(&mut out, name, 15);
            out.append(" — ");
            out.append(d.as_str());
        },
        None => {
            out.append(name);
        },
    }
    out.append("\n");
    out
}

/// The lines of the first `n` controls of a profile.
pub open spec fn setting_lines(controls: Seq<(String, i64)>, n: nat) -> Seq<char>
    decreases n,
{
    if n == 0 {
        Seq::empty()
    } else {
        setting_lines(controls, (n - 1) as nat) + "    "@ + text::padded_right(
            controls[n - 1].0@,
            30,
        ) + " = "@ + text::signed_decimal(controls[n - 1].1 as int) + "\n"@
    }
}

/// The report on a profile.
pub open spec fn profile_text(p: Profile) -> Seq<char> {
    "=== Profile: "@ + p.name@ + " ===\n\n  Description: "@ + p.description@ + "\n"@
        + match p.video_mode {
        Some(m) => "  Video Mode:  "@ + text::decimal(m.width as nat) + "x"@ + text::decimal(
            m.height as nat,
        ) + " @ "@ + text::decimal(m.fps as nat) + " fps ("@ + m.format@ + ")\n"@,
        None => Seq::empty(),
    } + "  Controls:\n"@ + setting_lines(p.controls@, p.controls@.len())
}

/// The report on a profile.
pub fn profile_report(p: &Profile) -> (r: String)
    ensures
        r@ == profile_text(*p),
{
    let mut out = "=== Profile: ".to_owned();
    out.append(p.name.as_str());
    out.append(" ===\n\n  Description: ");
    out.append(p.description.as_str());
    out.append("\n");
    let ghost head = out@;
    if let Some(m) = &p.video_mode {
        out.append("  Video Mode:  ");
        push_decimal(&mut out, m.width as u64);
        out.append("x");
        push_decimal(&mut out, m.height as u64);
        out.append(" @ ");
        push_decimal(&mut out, m.fps as u64);
        out.append(" fps (");
        out.append(m.format.as_str());
        out.append(")\n");
    }
    proof {
        assert(out@ =~= head + match p.video_mode {
            Some(m) => "  Video Mode:  "@ + text::decimal(m.width as nat) + "x"@ + text::decimal(
                m.height as nat,
            ) + " @ "@ + text::decimal(m.fps as nat) + " fps ("@ + m.format@ + ")\n"@,
            None => Seq::empty(),
        });
    }
    out.append("  Controls:\n");
    let ghost body = out@;
    proof {
        assert(body + setting_lines(p.controls@, 0) =~= body);
    }
    for i in 0..p.controls.len()
        invariant
            out@ == body + setting_lines(p.controls@, i as nat),
    {
        out.append("    ");
        push_padded_right(&mut out, p.controls[i].0.as_str(), 30);
        out.append(" = ");
        push_signed(&mut out, p.controls[i].1);
        out.append("\n");
        proof {
            assert(out@ =~= body + setting_lines(p.controls@, (i + 1) as nat));
        }
    }
    out
}

// ---------------------------------------------------------------------------------------------
// Laws
// ---------------------------------------------------------------------------------------------

/// The status shows the frames that were captured, written and dropped, each under its own name, and
/// behind them the recoveries, the source and the sink.
pub proof fn statuses_name_their_counts(s: DaemonStatus, mode: Option<String>)
    ensures
        exists|a: Seq<char>, b: Seq<char>|
            status_text(s, mode) == #[trigger] (a + b) && text::has_prefix(
                b,
                "\n  Frames:         captured="@ + text::decimal(s.frames_captured as nat)
                    + " written="@ + text::decimal(s.frames_written as nat) + " dropped="@
                    + text::decimal(s.frames_dropped as nat) + "\n  Recoveries:     "@
                    + text::decimal(s.recovery_count as nat) + "\n  Source:         "@ + or_none(
                    s.source_device,
                ) + "\n  Sink:           "@ + or_none(s.sink_device) + "\n  Profile:        "@ + or_none(
                    s.active_profile,
                ),
            ),
        or_none(None) == "none"@,
        s.source_device matches Some(path) ==> or_none(s.source_device) == path@,
{
    let product = match s.product {
        Some(product) => "  Product:        "@ + product@ + "\n"@,
        None => Seq::empty(),
    };
    let a = "=== Facecam Daemon Status ===\n\n  State:          "@ + types::pipeline_text(s.state) + "\n"@
        + product + "  Health:         "@ + types::health_text(s.health) + "\n  Uptime:         "@
        + text::decimal(s.uptime_secs as nat) + "s\n  Connected:      "@ + text::truth(
        s.device_connected,
    ) + "\n  Mode:           "@ + or_none(
        mode,
    );
    let m0 = "\n  Frames:         captured="@;
    lemma_regroup(a, m0, text::decimal(s.frames_captured as nat));
    let m1 = m0 + text::decimal(s.frames_captured as nat);
    lemma_regroup(a, m1, " written="@);
    let m2 = m1 + " written="@;
    lemma_regroup(a, m2, text::decimal(s.frames_written as nat));
    let m3 = m2 + text::decimal(s.frames_written as nat);
    lemma_regroup(a, m3, " dropped="@);
    let m4 = m3 + " dropped="@;
    lemma_regroup(a, m4, text::decimal(s.frames_dropped as nat));
    let m5 = m4 + text::decimal(s.frames_dropped as nat);
    lemma_regroup(a, m5, "\n  Recoveries:     "@);
    let m6 = m5 + "\n  Recoveries:     "@;
    lemma_regroup(a, m6, text::decimal(s.recovery_count as nat));
    let m7 = m6 + text::decimal(s.recovery_count as nat);
    lemma_regroup(a, m7, "\n  Source:         "@);
    let m8 = m7 + "\n  Source:         "@;
    lemma_regroup(a, m8, or_none(s.source_device));
    let m9 = m8 + or_none(s.source_device);
    lemma_regroup(a, m9, "\n  Sink:           "@);
    let m10 = m9 + "\n  Sink:           "@;
    lemma_regroup(a, m10, or_none(s.sink_device));
    let m11 = m10 + or_none(s.sink_device);
    lemma_regroup(a, m11, "\n  Profile:        "@);
    let m12 = m11 + "\n  Profile:        "@;
    lemma_regroup(a, m12, or_none(s.active_profile));
    let m13 = m12 + or_none(s.active_profile);
    let end = match s.last_error {
        Some(words) => "  Last Error:     "@ + words@ + "\n"@,
        None => Seq::empty(),
    };
    let n = m13;
    lemma_regroup(a, n, "\n"@);
    lemma_regroup(a, n + "\n"@, end);
    lemma_regroup(n, "\n"@, end);
    lemma_begins(n, "\n"@ + end);
    let b = n + ("\n"@ + end);
    assert(status_text(s, mode) == a + b);
}

proof fn lemma_regroup(a: Seq<char>, b: Seq<char>, c: Seq<char>)
    ensures
        a + b + c == a + (b + c),
{
    assert(a + b + c =~= a + (b + c));
}

proof fn lemma_begins(a: Seq<char>, b: Seq<char>)
    ensures
        text::has_prefix(a + b, a),
{
    assert((a + b).take(a.len() as int) =~= a);
}

/// The status begins with the state, and names the product and the last error only where they are
/// known.
pub proof fn statuses_begin_with_the_state(s: DaemonStatus, mode: Option<String>)
    ensures
        text::has_prefix(
            status_text(s, mode),
            "=== Facecam Daemon Status ===\n\n  State:          "@ + types::pipeline_text(s.state)
                + "\n"@ + match s.product {
                Some(product) => "  Product:        "@ + product@ + "\n"@,
                None => Seq::empty(),
            } + "  Health:         "@ + types::health_text(s.health) + "\n  Uptime:         "@
                + text::decimal(s.uptime_secs as nat) + "s\n  Connected:      "@ + (if s.device_connected {
                "true"@
            } else {
                "false"@
            }) + "\n  Mode:           "@,
        ),
        s.last_error matches Some(words) ==> exists|a: Seq<char>|
            status_text(s, mode) == #[trigger] (a + ("  Last Error:     "@ + words@ + "\n"@)),
{
    let product = match s.product {
        Some(product) => "  Product:        "@ + product@ + "\n"@,
        None => Seq::empty(),
    };
    let a = "=== Facecam Daemon Status ===\n\n  State:          "@ + types::pipeline_text(s.state) + "\n"@
        + product + "  Health:         "@ + types::health_text(s.health) + "\n  Uptime:         "@
        + text::decimal(s.uptime_secs as nat) + "s\n  Connected:      "@ + text::truth(
        s.device_connected,
    ) + "\n  Mode:           "@;
    let m0 = or_none(mode);
    lemma_regroup(a, m0, "\n  Frames:         captured="@);
    let m1 = m0 + "\n  Frames:         captured="@;
    lemma_regroup(a, m1, text::decimal(s.frames_captured as nat));
    let m2 = m1 + text::decimal(s.frames_captured as nat);
    lemma_regroup(a, m2, " written="@);
    let m3 = m2 + " written="@;
    lemma_regroup(a, m3, text::decimal(s.frames_written as nat));
    let m4 = m3 + text::decimal(s.frames_written as nat);
    lemma_regroup(a, m4, " dropped="@);
    let m5 = m4 + " dropped="@;
    lemma_regroup(a, m5, text::decimal(s.frames_dropped as nat));
    let m6 = m5 + text::decimal(s.frames_dropped as nat);
    lemma_regroup(a, m6, "\n  Recoveries:     "@);
    let m7 = m6 + "\n  Recoveries:     "@;
    lemma_regroup(a, m7, text::decimal(s.recovery_count as nat));
    let m8 = m7 + text::decimal(s.recovery_count as nat);
    lemma_regroup(a, m8, "\n  Source:         "@);
    let m9 = m8 + "\n  Source:         "@;
    lemma_regroup(a, m9, or_none(s.source_device));
    let m10 = m9 + or_none(s.source_device);
    lemma_regroup(a, m10, "\n  Sink:           "@);
    let m11 = m10 + "\n  Sink:           "@;
    lemma_regroup(a, m11, or_none(s.sink_device));
    let m12 = m11 + or_none(s.sink_device);
    lemma_regroup(a, m12, "\n  Profile:        "@);
    let m13 = m12 + "\n  Profile:        "@;
    lemma_regroup(a, m13, or_none(s.active_profile));
    let m14 = m13 + or_none(s.active_profile);
    lemma_regroup(a, m14, "\n"@);
    let m15 = m14 + "\n"@;
    let end = match s.last_error {
        Some(words) => "  Last Error:     "@ + words@ + "\n"@,
        None => Seq::empty(),
    };
    let rest = m15;
    lemma_regroup(a, rest, end);
    lemma_begins(a, rest + end);
    assert(status_text(s, mode) == a + rest + end);
}

/// A control is shown with its value before its range, the minimum before the maximum, and its default
/// last.
pub proof fn controls_are_shown_with_their_range(c: ControlValue)
    ensures
        exists|a: Seq<char>|
            control_line(c) == #[trigger] (a + (text::padded_left(
                text::signed_decimal(c.value as int),
                6,
                ' ',
            ) + "  (range ["@ + text::signed_decimal(c.minimum as int) + ", "@ + text::signed_decimal(
                c.maximum as int,
            ) + "], default "@ + text::signed_decimal(c.default as int) + ")\n"@)) && a == "  "@
                + text::padded_right(c.name@, 30) + " = "@,
{
    let a = "  "@ + text::padded_right(c.name@, 30) + " = "@;
    let b = text::padded_left(text::signed_decimal(c.value as int), 6, ' ') + "  (range ["@
        + text::signed_decimal(c.minimum as int) + ", "@ + text::signed_decimal(c.maximum as int)
        + "], default "@ + text::signed_decimal(c.default as int) + ")\n"@;
    assert(control_line(c) =~= a + b);
}

/// Controls are listed in order: one more control adds its line at the end.
pub proof fn lines_are_added_in_order(controls: Seq<ControlValue>, c: ControlValue)
    ensures
        control_lines(controls.push(c), controls.len() + 1) == control_lines(controls, controls.len())
            + control_line(c),
        control_lines(Seq::empty(), 0).len() == 0,
{
    lemma_same_lines(controls, c, controls.len());
}

proof fn lemma_same_lines(controls: Seq<ControlValue>, c: ControlValue, n: nat)
    requires
        n <= controls.len(),
    ensures
        control_lines(controls.push(c), n) == control_lines(controls, n),
    decreases n,
{
    if n > 0 {
        lemma_same_lines(controls, c, (n - 1) as nat);
    }
}

/// The text of a profile gives the width before the height, and both before the frame rate and the
/// format.
pub proof fn profiles_show_their_mode(p: Profile)
    requires
        p.video_mode is Some,
    ensures
        exists|a: Seq<char>, b: Seq<char>|
            profile_text(p) == #[trigger] (a + b) && text::has_prefix(
                b,
                "  Video Mode:  "@ + text::decimal(p.video_mode->0.width as nat) + "x"@
                    + text::decimal(p.video_mode->0.height as nat) + " @ "@ + text::decimal(
                    p.video_mode->0.fps as nat,
                ) + " fps ("@ + p.video_mode->0.format@ + ")\n"@,
            ) && a == "=== Profile: "@ + p.name@ + " ===\n\n  Description: "@ + p.description@ + "\n"@,
{
    let m = p.video_mode->0;
    let a = "=== Profile: "@ + p.name@ + " ===\n\n  Description: "@ + p.description@ + "\n"@;
    let middle = "  Video Mode:  "@ + text::decimal(m.width as nat) + "x"@ + text::decimal(
        m.height as nat,
    ) + " @ "@ + text::decimal(m.fps as nat) + " fps ("@ + m.format@ + ")\n"@;
    let b = middle + "  Controls:\n"@ + setting_lines(p.controls@, p.controls@.len());
    assert(profile_text(p) =~= a + b);
    assert(b.take(middle.len() as int) =~= middle);
}

/// An error of the daemon is reported with its words; any other answer that does not belong to the
/// command is not expected.
pub proof fn errors_are_reported(words: String, response: DaemonResponse)
    ensures
        otherwise(DaemonResponse::Error(words)) == OutcomeModel::Refused(words@),
        !(response is Error) ==> otherwise(response) is Unexpected,
{
}

} // verus!
