//! What is written to which control file, and in what order.
//!
//! A plan is a list of steps, one per file: the file is opened once, the
//! step's payloads are written to it one by one, and the next step follows.
//! The order of the steps is part of what the hardware needs: some writes
//! reset what others have set.

use vstd::prelude::*;
use vstd::utf8::*;
use crate::decimal::{decimal_digits, decimal_text, push_signed, push_unsigned};
use crate::resolve::{Paths, ResolvedDevicePaths};
use crate::settings::{DeviceSettings, Settings};
use crate::text::{push_text, text_copy, text_from};

verus! {

/// The control files of a device.
#[derive(Debug, Clone, Copy, PartialEq, Eq, Structural)]
pub enum ControlFile {
    /// `power_dpm_force_performance_level` in the attribute directory.
    PerformanceLevel,
    /// `power1_cap` in the hardware-monitor directory.
    PowerCap,
    /// `power1_cap_default` in the hardware-monitor directory; read only.
    PowerCapDefault,
    /// `pp_power_profile_mode` in the attribute directory.
    PowerProfileMode,
    /// `gpu_od/fan_ctrl/fan_target_temperature` in the attribute directory.
    FanTargetTemperature,
    /// `gpu_od/fan_ctrl/fan_zero_rpm_enable` in the attribute directory.
    FanZeroRpmEnable,
    /// `gpu_od/fan_ctrl/fan_zero_rpm_stop_temperature` in the attribute
    /// directory.
    FanZeroRpmStopTemperature,
    /// `pp_od_clk_voltage` in the attribute directory: the file that takes
    /// the clock and voltage commands.
    ClockVoltage,
}

/// The name of a control file below its directory, with the slash before
/// it.
pub open spec fn control_file_name(file: ControlFile) -> Seq<u8> {
    match file {
        ControlFile::PerformanceLevel => encode_utf8("/power_dpm_force_performance_level"@),
        ControlFile::PowerCap => encode_utf8("/power1_cap"@),
        ControlFile::PowerCapDefault => encode_utf8("/power1_cap_default"@),
        ControlFile::PowerProfileMode => encode_utf8("/pp_power_profile_mode"@),
        ControlFile::FanTargetTemperature => encode_utf8(
            "/gpu_od/fan_ctrl/fan_target_temperature"@,
        ),
        ControlFile::FanZeroRpmEnable => encode_utf8("/gpu_od/fan_ctrl/fan_zero_rpm_enable"@),
        ControlFile::FanZeroRpmStopTemperature => encode_utf8(
            "/gpu_od/fan_ctrl/fan_zero_rpm_stop_temperature"@,
        ),
        ControlFile::ClockVoltage => encode_utf8("/pp_od_clk_voltage"@),
    }
}

/// Whether a control file lives in the hardware-monitor directory rather
/// than in the attribute directory.
pub open spec fn in_hwmon(file: ControlFile) -> bool {
    file == ControlFile::PowerCap || file == ControlFile::PowerCapDefault
}

/// The path of a control file of the device at `paths`.
pub open spec fn control_file_path_spec(paths: Paths, file: ControlFile) -> Seq<u8> {
    if in_hwmon(file) {
        paths.hwmon + control_file_name(file)
    } else {
        paths.home + control_file_name(file)
    }
}

/// The path of a control file of the device at `paths`.
pub fn control_file_path(paths: &ResolvedDevicePaths, file: ControlFile) -> (r: String)
    ensures
        encode_utf8(r@) == control_file_path_spec(paths@, file),
{
    let mut path = match file {
        ControlFile::PowerCap | ControlFile::PowerCapDefault => text_copy(&paths.hwmon_path),
        _ => text_copy(&paths.home_path),
    };
    let name = match file {
        ControlFile::PerformanceLevel => "/power_dpm_force_performance_level",
        ControlFile::PowerCap => "/power1_cap",
        ControlFile::PowerCapDefault => "/power1_cap_default",
        ControlFile::PowerProfileMode => "/pp_power_profile_mode",
        ControlFile::FanTargetTemperature => "/gpu_od/fan_ctrl/fan_target_temperature",
        ControlFile::FanZeroRpmEnable => "/gpu_od/fan_ctrl/fan_zero_rpm_enable",
        ControlFile::FanZeroRpmStopTemperature => "/gpu_od/fan_ctrl/fan_zero_rpm_stop_temperature",
        ControlFile::ClockVoltage => "/pp_od_clk_voltage",
    };
    push_text(&mut path, name);
    path
}

/// A command to the clock and voltage file.
#[derive(Debug, Clone, Copy, PartialEq, Eq, Structural)]
pub enum Command {
    /// `s <offset>`: the single core clock offset.
    SclkOffset(i32),
    /// `s 0 <clock>`: the lower point of the core clock.
    SclkMin(u32),
    /// `s 1 <clock>`: the upper point of the core clock.
    SclkMax(u32),
    /// `m 0 <clock>`: the lower memory clock bound.
    MclkMin(u32),
    /// `m 1 <clock>`: the upper memory clock bound.
    MclkMax(u32),
    /// `vo <offset>`: the graphics voltage offset.
    VoltageOffset(i32),
    /// `c`: put into effect what was written.
    Commit,
    /// `r`: back to the defaults.
    Reset,
}

/// The text of a command as the file takes it.
pub open spec fn command_text(c: Command) -> Seq<u8> {
    match c {
        Command::SclkOffset(v) => encode_utf8("s "@) + decimal_text(v as int),
        Command::SclkMin(v) => encode_utf8("s 0 "@) + decimal_digits(v as nat),
        Command::SclkMax(v) => encode_utf8("s 1 "@) + decimal_digits(v as nat),
        Command::MclkMin(v) => encode_utf8("m 0 "@) + decimal_digits(v as nat),
        Command::MclkMax(v) => encode_utf8("m 1 "@) + decimal_digits(v as nat),
        Command::VoltageOffset(v) => encode_utf8("vo "@) + decimal_text(v as int),
        Command::Commit => encode_utf8("c"@),
        Command::Reset => encode_utf8("r"@),
    }
}

/// One thing written to a control file.
#[derive(Debug, Clone, PartialEq, Eq)]
pub enum Payload {
    /// Text as it stands.
    Text(String),
    /// A number in decimal.
    Number(u64),
    /// A number in decimal and a line feed.
    NumberLine(u64),
    /// A command to the clock and voltage file.
    Command(Command),
}

/// The mathematical value of a [`Payload`].
pub enum PayloadView {
    Text(Seq<u8>),
    Number(u64),
    NumberLine(u64),
    Command(Command),
}

impl View for Payload {
    type V = PayloadView;

    open spec fn view(&self) -> PayloadView {
        match *self {
            Payload::Text(text) => PayloadView::Text(encode_utf8(text@)),
            Payload::Number(n) => PayloadView::Number(n),
            Payload::NumberLine(n) => PayloadView::NumberLine(n),
            Payload::Command(c) => PayloadView::Command(c),
        }
    }
}

/// The bytes that a payload puts into the file.
pub open spec fn payload_text(p: PayloadView) -> Seq<u8> {
    match p {
        PayloadView::Text(text) => text,
        PayloadView::Number(n) => decimal_digits(n as nat),
        PayloadView::NumberLine(n) => decimal_digits(n as nat) + encode_utf8("\n"@),
        PayloadView::Command(c) => command_text(c),
    }
}

/// The text of a command as the file takes it.
pub fn render_command(c: Command) -> (r: String)
    ensures
        encode_utf8(r@) == command_text(c),
{
    match c {
        Command::SclkOffset(v) => {
            let mut out = text_from("s ");
            push_signed(&mut out, v as i64);
            out
        },
        Command::SclkMin(v) => {
            let mut out = text_from("s 0 ");
            push_unsigned(&mut out, v as u64);
            out
        },
        Command::SclkMax(v) => {
            let mut out = text_from("s 1 ");
            push_unsigned(&mut out, v as u64);
            out
        },
        Command::MclkMin(v) => {
            let mut out = text_from("m 0 ");
            push_unsigned(&mut out, v as u64);
            out
        },
        Command::MclkMax(v) => {
            let mut out = text_from("m 1 ");
            push_unsigned(&mut out, v as u64);
            out
        },
        Command::VoltageOffset(v) => {
            let mut out = text_from("vo ");
            push_signed(&mut out, v as i64);
            out
        },
        Command::Commit => text_from("c"),
        Command::Reset => text_from("r"),
    }
}

/// The text that a payload puts into the file.
pub fn render_payload(p: &Payload) -> (r: String)
    ensures
        encode_utf8(r@) == payload_text(p@),
{
    match p {
        Payload::Text(text) => text_copy(text),
        Payload::Number(n) => {
            let mut out = text_from("");
            proof {
                reveal_strlit("");
            }
            push_unsigned(&mut out, *n);
            assert(Seq::<u8>::empty() + decimal_digits(*n as nat) =~= decimal_digits(*n as nat));
            out
        },
        Payload::NumberLine(n) => {
            let mut out = text_from("");
            proof {
                reveal_strlit("");
            }
            push_unsigned(&mut out, *n);
            assert(Seq::<u8>::empty() + decimal_digits(*n as nat) =~= decimal_digits(*n as nat));
            push_text(&mut out, "\n");
            out
        },
        Payload::Command(c) => render_command(*c),
    }
}

/// How the content of a control file is shown to the user.
#[derive(Debug, Clone, Copy, PartialEq, Eq, Structural)]
pub enum Layout {
    /// Each line after the label of the performance level.
    Labelled,
    /// Under a heading, the lines that mark the selected power profile.
    Starred,
    /// Each line as a power in microwatts, with its value in watts.
    Watts,
    /// Each line as it is.
    Plain,
    /// An empty line, then each line as it is.
    PlainAfterBlank,
}

/// What a step does with its file.
#[derive(Debug, Clone, PartialEq, Eq)]
pub enum Access {
    /// Writes the payloads to it, in order.
    Write(Vec<Payload>),
    /// Writes to it the first line of another file, which is read first.
    Restore(ControlFile),
    /// Reads it and shows what it holds.
    Show(Layout),
}

/// The mathematical value of an [`Access`].
pub enum AccessView {
    Write(Seq<PayloadView>),
    Restore(ControlFile),
    Show(Layout),
}

/// The values of a list of payloads.
pub open spec fn payloads_view(payloads: Seq<Payload>) -> Seq<PayloadView> {
    Seq::new(payloads.len(), |i: int| payloads[i]@)
}

impl View for Access {
    type V = AccessView;

    open spec fn view(&self) -> AccessView {
        match *self {
            Access::Write(payloads) => AccessView::Write(payloads_view(payloads@)),
            Access::Restore(source) => AccessView::Restore(source),
            Access::Show(layout) => AccessView::Show(layout),
        }
    }
}

/// One step of a plan: one control file and what is done with it.
#[derive(Debug, Clone, PartialEq, Eq)]
pub struct Step {
    /// The file that the step is about.
    pub file: ControlFile,
    /// Whether the file may be missing. A missing optional file is passed
    /// over; a missing required file ends the run.
    pub optional: bool,
    /// What is done with the file.
    pub access: Access,
}

/// The mathematical value of a [`Step`].
pub struct StepView {
    pub file: ControlFile,
    pub optional: bool,
    pub access: AccessView,
}

impl View for Step {
    type V = StepView;

    open spec fn view(&self) -> StepView {
        StepView { file: self.file, optional: self.optional, access: self.access@ }
    }
}

/// The values of the steps of a plan.
pub open spec fn plan_view(plan: Seq<Step>) -> Seq<StepView> {
    Seq::new(plan.len(), |i: int| plan[i]@)
}

/// A step that writes `payloads` to `file`.
pub open spec fn write_step(file: ControlFile, optional: bool, payloads: Seq<PayloadView>)
    -> StepView {
    StepView { file, optional, access: AccessView::Write(payloads) }
}

/// The step that writes one payload to `file`, when there is a payload.
pub open spec fn step_when(file: ControlFile, optional: bool, payload: Option<PayloadView>) -> Seq<
    StepView,
> {
    match payload {
        Some(p) => seq![write_step(file, optional, seq![p])],
        None => Seq::empty(),
    }
}

/// The performance level that is written: the one asked for, `manual`
/// where none is. The hardware takes clock and voltage overrides in manual
/// mode only.
pub open spec fn level_text(s: Settings) -> Seq<u8> {
    match s.performance_level {
        Some(level) => level,
        None => encode_utf8("manual"@),
    }
}

/// The core clock commands: the single offset where it is present, and then
/// nothing of the two-point pair; else the minimum and the maximum, each
/// where present.
pub open spec fn clock_commands(s: Settings) -> Seq<Command> {
    match s.clock_offset_single {
        Some(offset) => seq![Command::SclkOffset(offset)],
        None => (match s.clock_offset_min {
            Some(v) => seq![Command::SclkMin(v)],
            None => Seq::empty(),
        }) + (match s.clock_offset_max {
            Some(v) => seq![Command::SclkMax(v)],
            None => Seq::empty(),
        }),
    }
}

/// The memory clock commands: the minimum and the maximum, each where
/// present.
pub open spec fn memory_commands(s: Settings) -> Seq<Command> {
    (match s.memory_clock_min {
        Some(v) => seq![Command::MclkMin(v)],
        None => Seq::empty(),
    }) + (match s.memory_clock_max {
        Some(v) => seq![Command::MclkMax(v)],
        None => Seq::empty(),
    })
}

/// The voltage command, where the offset is present.
pub open spec fn voltage_commands(s: Settings) -> Seq<Command> {
    match s.voltage_offset {
        Some(v) => seq![Command::VoltageOffset(v)],
        None => Seq::empty(),
    }
}

/// Everything written to the clock and voltage file: core clock, memory
/// clock, voltage, and the commit, which is written whatever else is.
///
/// Opaque to the solver: `reveal` it where its body is needed.
#[verifier::opaque]
pub open spec fn override_commands(s: Settings) -> Seq<Command> {
    clock_commands(s) + memory_commands(s) + voltage_commands(s) + seq![Command::Commit]
}

/// The commands as payloads.
pub open spec fn command_payloads(commands: Seq<Command>) -> Seq<PayloadView> {
    Seq::new(commands.len(), |i: int| PayloadView::Command(commands[i]))
}

/// The steps that write single values, in this order: the performance
/// level, always; the power cap; the power profile; the fan's target
/// temperature; and the two zero-RPM files, which may be missing on an older
/// kernel. A step for an absent field is left out.
///
/// Opaque to the solver: `reveal` it where its body is needed.
#[verifier::opaque]
pub open spec fn value_steps(s: Settings) -> Seq<StepView> {
    seq![write_step(ControlFile::PerformanceLevel, false, seq![PayloadView::Text(level_text(s))])]
        + step_when(
        ControlFile::PowerCap,
        false,
        match s.power_cap {
            Some(v) => Some(PayloadView::Number(v)),
            None => None,
        },
    ) + step_when(
        ControlFile::PowerProfileMode,
        false,
        match s.power_profile_index {
            Some(v) => Some(PayloadView::Number(v as u64)),
            None => None,
        },
    ) + step_when(
        ControlFile::FanTargetTemperature,
        false,
        match s.fan_target_temperature {
            Some(v) => Some(PayloadView::NumberLine(v as u64)),
            None => None,
        },
    ) + step_when(
        ControlFile::FanZeroRpmEnable,
        true,
        match s.fan_zero_rpm_enabled {
            Some(v) => Some(PayloadView::NumberLine(v as u64)),
            None => None,
        },
    ) + step_when(
        ControlFile::FanZeroRpmStopTemperature,
        true,
        match s.fan_zero_rpm_stop_temperature {
            Some(v) => Some(PayloadView::NumberLine(v as u64)),
            None => None,
        },
    )
}

/// The step that writes the commands to the clock and voltage file.
pub open spec fn override_step(s: Settings) -> StepView {
    write_step(ControlFile::ClockVoltage, false, command_payloads(override_commands(s)))
}

/// The plan that applies `s`: the steps that write single values, then the
/// clock and voltage file, always.
pub open spec fn apply_plan_spec(s: Settings) -> Seq<StepView> {
    value_steps(s).push(override_step(s))
}

/// The plan that puts a device back to its defaults: the performance level
/// to `auto`; the power cap to what the hardware reports as its default;
/// the power profile to index 0, the one of boot-up; and the reset command
/// to the clock and voltage file.
pub open spec fn reset_plan_spec() -> Seq<StepView> {
    seq![
        write_step(
            ControlFile::PerformanceLevel,
            false,
            seq![PayloadView::Text(encode_utf8("auto"@))],
        ),
        StepView {
            file: ControlFile::PowerCap,
            optional: false,
            access: AccessView::Restore(ControlFile::PowerCapDefault),
        },
        write_step(ControlFile::PowerProfileMode, false, seq![PayloadView::Number(0)]),
        write_step(
            ControlFile::ClockVoltage,
            false,
            seq![PayloadView::Command(Command::Reset)],
        ),
    ]
}

/// A step that shows `file`.
pub open spec fn show_step(file: ControlFile, optional: bool, layout: Layout) -> StepView {
    StepView { file, optional, access: AccessView::Show(layout) }
}

/// The plan that shows the state of a device.
pub open spec fn info_plan_spec() -> Seq<StepView> {
    seq![
        show_step(ControlFile::PerformanceLevel, false, Layout::Labelled),
        show_step(ControlFile::PowerProfileMode, false, Layout::Starred),
        show_step(ControlFile::PowerCap, false, Layout::Watts),
        show_step(ControlFile::ClockVoltage, false, Layout::Plain),
        show_step(ControlFile::FanTargetTemperature, false, Layout::Plain),
        show_step(ControlFile::FanZeroRpmEnable, true, Layout::PlainAfterBlank),
        show_step(ControlFile::FanZeroRpmStopTemperature, true, Layout::PlainAfterBlank),
    ]
}

fn push_step(plan: &mut Vec<Step>, step: Step)
    ensures
        plan_view(final(plan)@) == plan_view(old(plan)@).push(step@),
{
    plan.push(step);
    assert(plan_view(plan@) =~= plan_view(old(plan)@).push(step@));
}

fn push_write(plan: &mut Vec<Step>, file: ControlFile, optional: bool, payload: Option<Payload>)
    ensures
        plan_view(final(plan)@) == plan_view(old(plan)@) + step_when(
            file,
            optional,
            match payload {
                Some(p) => Some(p@),
                None => None,
            },
        ),
{
    match payload {
        Some(p) => {
            let mut payloads: Vec<Payload> = Vec::new();
            payloads.push(p);
            assert(payloads_view(payloads@) =~= seq![p@]);
            push_step(plan, Step { file, optional, access: Access::Write(payloads) });
            assert(plan_view(old(plan)@).push(write_step(file, optional, seq![p@])) =~= plan_view(
                old(plan)@,
            ) + seq![write_step(file, optional, seq![p@])]);
        },
        None => {
            assert(plan_view(old(plan)@) + Seq::<StepView>::empty() =~= plan_view(old(plan)@));
        },
    }
}

fn push_command(payloads: &mut Vec<Payload>, Ghost(commands): Ghost<Seq<Command>>, c: Command)
    requires
        payloads_view(old(payloads)@) == command_payloads(commands),
    ensures
        payloads_view(final(payloads)@) == command_payloads(commands + seq![c]),
{
    let ghost before = payloads@;
    payloads.push(Payload::Command(c));
    proof {
        let grown = commands + seq![c];
        assert(payloads_view(before).len() == commands.len());
        assert(payloads@ == before.push(Payload::Command(c)));
        assert forall|i: int| 0 <= i < grown.len() implies payloads_view(payloads@)[i]
            == command_payloads(grown)[i] by {
            if i < commands.len() {
                assert(payloads_view(before)[i] == command_payloads(commands)[i]);
                assert(payloads@[i] == before[i]);
                assert(grown[i] == commands[i]);
            } else {
                assert(payloads@[i] == Payload::Command(c));
                assert(grown[i] == c);
            }
        }
        assert(payloads_view(payloads@) =~= command_payloads(grown));
    }
}

/// The commands that apply the clock and voltage fields of `settings`.
fn override_payloads(settings: &DeviceSettings) -> (r: Vec<Payload>)
    ensures
        payloads_view(r@) == command_payloads(override_commands(settings@)),
{
    let mut payloads: Vec<Payload> = Vec::new();
    let ghost mut commands: Seq<Command> = Seq::empty();
    assert(payloads_view(payloads@) =~= command_payloads(commands));
    match settings.clock_offset_single {
        Some(offset) => {
            push_command(&mut payloads, Ghost(commands), Command::SclkOffset(offset));
            proof {
                commands = commands + seq![Command::SclkOffset(offset)];
            }
        },
        None => {
            if let Some(v) = settings.clock_offset_min {
                push_command(&mut payloads, Ghost(commands), Command::SclkMin(v));
                proof {
                    commands = commands + seq![Command::SclkMin(v)];
                }
            }
            if let Some(v) = settings.clock_offset_max {
                push_command(&mut payloads, Ghost(commands), Command::SclkMax(v));
                proof {
                    commands = commands + seq![Command::SclkMax(v)];
                }
            }
        },
    }
    assert(commands =~= clock_commands(settings@));
    if let Some(v) = settings.memory_clock_min {
        push_command(&mut payloads, Ghost(commands), Command::MclkMin(v));
        proof {
            commands = commands + seq![Command::MclkMin(v)];
        }
    }
    if let Some(v) = settings.memory_clock_max {
        push_command(&mut payloads, Ghost(commands), Command::MclkMax(v));
        proof {
            commands = commands + seq![Command::MclkMax(v)];
        }
    }
    assert(commands =~= clock_commands(settings@) + memory_commands(settings@));
    if let Some(v) = settings.voltage_offset {
        push_command(&mut payloads, Ghost(commands), Command::VoltageOffset(v));
        proof {
            commands = commands + seq![Command::VoltageOffset(v)];
        }
    }
    assert(commands =~= clock_commands(settings@) + memory_commands(settings@) + voltage_commands(
        settings@,
    ));
    push_command(&mut payloads, Ghost(commands), Command::Commit);
    proof {
        reveal(override_commands);
    }
    payloads
}

/// The plan that applies `settings`.
pub fn apply_plan(settings: &DeviceSettings) -> (plan: Vec<Step>)
    ensures
        plan_view(plan@) == apply_plan_spec(settings@),
{
    let mut plan: Vec<Step> = Vec::new();
    let level = match &settings.performance_level {
        Some(level) => text_copy(level),
        None => text_from("manual"),
    };
    push_write(&mut plan, ControlFile::PerformanceLevel, false, Some(Payload::Text(level)));
    assert(plan_view(plan@) =~= seq![
        write_step(
            ControlFile::PerformanceLevel,
            false,
            seq![PayloadView::Text(level_text(settings@))],
        ),
    ]);
    push_write(
        &mut plan,
        ControlFile::PowerCap,
        false,
        match settings.power_cap {
            Some(v) => Some(Payload::Number(v)),
            None => None,
        },
    );
    push_write(
        &mut plan,
        ControlFile::PowerProfileMode,
        false,
        match settings.power_profile_index {
            Some(v) => Some(Payload::Number(v as u64)),
            None => None,
        },
    );
    push_write(
        &mut plan,
        ControlFile::FanTargetTemperature,
        false,
        match settings.fan_target_temperature {
            Some(v) => Some(Payload::NumberLine(v as u64)),
            None => None,
        },
    );
    push_write(
        &mut plan,
        ControlFile::FanZeroRpmEnable,
        true,
        match settings.fan_zero_rpm_enabled {
            Some(v) => Some(Payload::NumberLine(v as u64)),
            None => None,
        },
    );
    push_write(
        &mut plan,
        ControlFile::FanZeroRpmStopTemperature,
        true,
        match settings.fan_zero_rpm_stop_temperature {
            Some(v) => Some(Payload::NumberLine(v as u64)),
            None => None,
        },
    );
    let commands = override_payloads(settings);
    let ghost before = plan_view(plan@);
    push_step(
        &mut plan,
        Step { file: ControlFile::ClockVoltage, optional: false, access: Access::Write(commands) },
    );
    assert(before == value_steps(settings@)) by {
        reveal(value_steps);
    }
    plan
}

/// The plan that puts a device back to its defaults.
pub fn reset_plan() -> (plan: Vec<Step>)
    ensures
        plan_view(plan@) == reset_plan_spec(),
{
    let mut plan: Vec<Step> = Vec::new();
    push_write(
        &mut plan,
        ControlFile::PerformanceLevel,
        false,
        Some(Payload::Text(text_from("auto"))),
    );
    push_step(
        &mut plan,
        Step {
            file: ControlFile::PowerCap,
            optional: false,
            access: Access::Restore(ControlFile::PowerCapDefault),
        },
    );
    push_write(&mut plan, ControlFile::PowerProfileMode, false, Some(Payload::Number(0)));
    push_write(
        &mut plan,
        ControlFile::ClockVoltage,
        false,
        Some(Payload::Command(Command::Reset)),
    );
    assert(plan_view(plan@) =~= reset_plan_spec());
    plan
}

/// The plan that shows the state of a device.
pub fn info_plan() -> (plan: Vec<Step>)
    ensures
        plan_view(plan@) == info_plan_spec(),
{
    let mut plan: Vec<Step> = Vec::new();
    push_step(
        &mut plan,
        Step {
            file: ControlFile::PerformanceLevel,
            optional: false,
            access: Access::Show(Layout::Labelled),
        },
    );
    push_step(
        &mut plan,
        Step {
            file: ControlFile::PowerProfileMode,
            optional: false,
            access: Access::Show(Layout::Starred),
        },
    );
    push_step(
        &mut plan,
        Step { file: ControlFile::PowerCap, optional: false, access: Access::Show(Layout::Watts) },
    );
    push_step(
        &mut plan,
        Step {
            file: ControlFile::ClockVoltage,
            optional: false,
            access: Access::Show(Layout::Plain),
        },
    );
    push_step(
        &mut plan,
        Step {
            file: ControlFile::FanTargetTemperature,
            optional: false,
            access: Access::Show(Layout::Plain),
        },
    );
    push_step(
        &mut plan,
        Step {
            file: ControlFile::FanZeroRpmEnable,
            optional: true,
            access: Access::Show(Layout::PlainAfterBlank),
        },
    );
    push_step(
        &mut plan,
        Step {
            file: ControlFile::FanZeroRpmStopTemperature,
            optional: true,
            access: Access::Show(Layout::PlainAfterBlank),
        },
    );
    assert(plan_view(plan@) =~= info_plan_spec());
    plan
}

} // verus!
