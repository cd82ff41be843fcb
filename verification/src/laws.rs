//! What holds of every plan that applies settings, and of every run of one.

use vstd::prelude::*;
use crate::plan::{
    apply_plan_spec, clock_commands, command_payloads, control_file_path_spec, level_text,
    memory_commands,
    override_commands, override_step, step_when, value_steps, voltage_commands, write_step,
    AccessView, Command, ControlFile, PayloadView, StepView,
};
use crate::resolve::Paths;
use crate::session::{
    enter_step, fresh_session, on_unavailable, request_file, run_requests, run_result,
    session_step, write_or_leave, ApplyError, Pending, ReplyView, RequestView, SessionView,
    TurnView,
};
use crate::settings::Settings;

verus! {

/// The place of a control file in the order in which settings are applied.
pub open spec fn apply_rank(file: ControlFile) -> int {
    match file {
        ControlFile::PerformanceLevel => 0,
        ControlFile::PowerCap => 1,
        ControlFile::PowerProfileMode => 2,
        ControlFile::FanTargetTemperature => 3,
        ControlFile::FanZeroRpmEnable => 4,
        ControlFile::FanZeroRpmStopTemperature => 5,
        ControlFile::ClockVoltage => 6,
        ControlFile::PowerCapDefault => 7,
    }
}

/// Steps whose files come in ascending order and all before `bound`.
pub open spec fn ascending_below(steps: Seq<StepView>, bound: int) -> bool {
    &&& forall|i: int| 0 <= i < steps.len() ==> apply_rank(#[trigger] steps[i].file) < bound
    &&& forall|i: int, j: int|
        0 <= i < j < steps.len() ==> apply_rank(#[trigger] steps[i].file) < apply_rank(
            #[trigger] steps[j].file,
        )
}

/// What a step writes: its payloads, and nothing where it does not write.
pub open spec fn step_payloads(step: StepView) -> Seq<PayloadView> {
    match step.access {
        AccessView::Write(payloads) => payloads,
        _ => Seq::empty(),
    }
}

/// The files that an older kernel does not have: the two zero-RPM files of
/// the fan.
pub open spec fn may_be_missing(file: ControlFile) -> bool {
    file == ControlFile::FanZeroRpmEnable || file == ControlFile::FanZeroRpmStopTemperature
}

/// A step that writes one payload which is no command, and is optional
/// exactly when its file may be missing.
pub open spec fn is_single_value(step: StepView) -> bool {
    &&& step.access is Write
    &&& step_payloads(step).len() == 1
    &&& !(step_payloads(step)[0] is Command)
    &&& step.optional == may_be_missing(step.file)
}

/// Steps that each write one payload which is no command.
pub open spec fn single_values(steps: Seq<StepView>) -> bool {
    forall|i: int| 0 <= i < steps.len() ==> is_single_value(#[trigger] steps[i])
}

proof fn lemma_extend_ascending(
    steps: Seq<StepView>,
    file: ControlFile,
    optional: bool,
    payload: Option<PayloadView>,
)
    requires
        ascending_below(steps, apply_rank(file)),
        single_values(steps),
        payload matches Some(p) ==> !(p is Command),
        optional == may_be_missing(file),
    ensures
        ascending_below(steps + step_when(file, optional, payload), apply_rank(file) + 1),
        single_values(steps + step_when(file, optional, payload)),
        (steps + step_when(file, optional, payload)).len() >= steps.len(),
        steps.len() > 0 ==> (steps + step_when(file, optional, payload))[0] == steps[0],
        steps.len() > 1 ==> (steps + step_when(file, optional, payload))[1] == steps[1],
        steps.len() == 1 && payload is Some ==> (steps + step_when(file, optional, payload)).len()
            == 2 && (steps + step_when(file, optional, payload))[1] == write_step(
            file,
            optional,
            seq![payload->0],
        ),
{
    let added = step_when(file, optional, payload);
    let all = steps + added;
    assert forall|i: int| 0 <= i < all.len() implies apply_rank(#[trigger] all[i].file)
        < apply_rank(file) + 1 by {
        if i < steps.len() {
            assert(all[i] == steps[i]);
        } else {
            assert(all[i] == added[i - steps.len()]);
        }
    }
    assert forall|i: int, j: int| 0 <= i < j < all.len() implies apply_rank(
        #[trigger] all[i].file,
    ) < apply_rank(#[trigger] all[j].file) by {
        assert(all[i] == steps[i]);
        if j < steps.len() {
            assert(all[j] == steps[j]);
        } else {
            assert(all[j] == added[j - steps.len()]);
        }
    }
    assert forall|i: int| 0 <= i < all.len() implies is_single_value(#[trigger] all[i]) by {
        if i < steps.len() {
            assert(all[i] == steps[i]);
        } else {
            assert(all[i] == added[i - steps.len()]);
        }
    }
}

/// The steps that write single values come in the order of their files, and
/// each writes one value. The first writes the performance level; where a
/// power cap is set the second writes it.
pub proof fn lemma_value_steps(s: Settings)
    ensures
        value_steps(s).len() >= 1,
        ascending_below(value_steps(s), 6),
        single_values(value_steps(s)),
        value_steps(s)[0] == write_step(
            ControlFile::PerformanceLevel,
            false,
            seq![PayloadView::Text(level_text(s))],
        ),
        s.power_cap matches Some(cap) ==> value_steps(s).len() >= 2 && value_steps(s)[1]
            == write_step(ControlFile::PowerCap, false, seq![PayloadView::Number(cap)]),
{
    let head = seq![
        write_step(ControlFile::PerformanceLevel, false, seq![PayloadView::Text(level_text(s))]),
    ];
    assert(ascending_below(head, 1));
    assert(is_single_value(head[0]));
    assert(single_values(head));
    let cap_payload = match s.power_cap {
        Some(v) => Some(PayloadView::Number(v)),
        None => None,
    };
    let profile_payload = match s.power_profile_index {
        Some(v) => Some(PayloadView::Number(v as u64)),
        None => None,
    };
    let target_payload = match s.fan_target_temperature {
        Some(v) => Some(PayloadView::NumberLine(v as u64)),
        None => None,
    };
    let flag_payload = match s.fan_zero_rpm_enabled {
        Some(v) => Some(PayloadView::NumberLine(v as u64)),
        None => None,
    };
    let stop_payload = match s.fan_zero_rpm_stop_temperature {
        Some(v) => Some(PayloadView::NumberLine(v as u64)),
        None => None,
    };
    lemma_extend_ascending(head, ControlFile::PowerCap, false, cap_payload);
    let with_cap = head + step_when(ControlFile::PowerCap, false, cap_payload);
    lemma_extend_ascending(with_cap, ControlFile::PowerProfileMode, false, profile_payload);
    let with_profile = with_cap + step_when(
        ControlFile::PowerProfileMode,
        false,
        profile_payload,
    );
    lemma_extend_ascending(
        with_profile,
        ControlFile::FanTargetTemperature,
        false,
        target_payload,
    );
    let with_target = with_profile + step_when(
        ControlFile::FanTargetTemperature,
        false,
        target_payload,
    );
    lemma_extend_ascending(with_target, ControlFile::FanZeroRpmEnable, true, flag_payload);
    let with_flag = with_target + step_when(ControlFile::FanZeroRpmEnable, true, flag_payload);
    lemma_extend_ascending(
        with_flag,
        ControlFile::FanZeroRpmStopTemperature,
        true,
        stop_payload,
    );
    let with_stop = with_flag + step_when(
        ControlFile::FanZeroRpmStopTemperature,
        true,
        stop_payload,
    );
    assert(with_stop == value_steps(s)) by {
        reveal(value_steps);
    }
}

/// The shape of a plan that applies settings. Its steps are about different
/// files, in the one order that the hardware needs: performance level, power
/// cap, power profile, fan target temperature, zero-RPM flag, zero-RPM stop
/// temperature, clock and voltage. The first step writes the performance
/// level and the last writes the commands; each step between writes one
/// value.
pub proof fn lemma_plan_order(s: Settings)
    ensures
        apply_plan_spec(s).len() >= 2,
        ascending_below(apply_plan_spec(s), 7),
        apply_plan_spec(s)[0] == write_step(
            ControlFile::PerformanceLevel,
            false,
            seq![PayloadView::Text(level_text(s))],
        ),
        apply_plan_spec(s).last() == override_step(s),
        apply_plan_spec(s).drop_last() == value_steps(s),
        single_values(value_steps(s)),
        s.power_cap matches Some(cap) ==> apply_plan_spec(s).len() >= 3 && apply_plan_spec(s)[1]
            == write_step(ControlFile::PowerCap, false, seq![PayloadView::Number(cap)]),
{
    lemma_value_steps(s);
    let values = value_steps(s);
    let plan = apply_plan_spec(s);
    assert(plan.drop_last() =~= values);
    assert forall|i: int| 0 <= i < plan.len() implies apply_rank(#[trigger] plan[i].file) < 7 by {
        if i < values.len() {
            assert(plan[i] == values[i]);
        }
    }
    assert forall|i: int, j: int| 0 <= i < j < plan.len() implies apply_rank(
        #[trigger] plan[i].file,
    ) < apply_rank(#[trigger] plan[j].file) by {
        assert(plan[i] == values[i]);
        if j < values.len() {
            assert(plan[j] == values[j]);
        }
    }
}

/// With a power cap set, the power cap is written before anything goes to
/// the clock and voltage file: the plan's second step writes the cap, and
/// the only step about the clock and voltage file is the last, which comes
/// after it.
pub proof fn lemma_power_cap_precedes_overrides(s: Settings, cap: u64)
    requires
        s.power_cap == Some(cap),
    ensures
        apply_plan_spec(s).len() >= 3,
        apply_plan_spec(s)[1] == write_step(
            ControlFile::PowerCap,
            false,
            seq![PayloadView::Number(cap)],
        ),
        forall|i: int|
            0 <= i < apply_plan_spec(s).len() && (#[trigger] apply_plan_spec(s)[i]).file
                == ControlFile::ClockVoltage ==> i == apply_plan_spec(s).len() - 1 && i > 1,
        forall|i: int|
            0 <= i < apply_plan_spec(s).len() && (#[trigger] apply_plan_spec(s)[i]).file
                == ControlFile::PowerCap ==> i == 1,
{
    lemma_plan_order(s);
    let plan = apply_plan_spec(s);
    assert(plan[1].file == ControlFile::PowerCap);
    assert(plan.last().file == ControlFile::ClockVoltage);
    assert(plan[plan.len() - 1].file == ControlFile::ClockVoltage);
    assert forall|i: int|
        0 <= i < plan.len() && (#[trigger] plan[i]).file
            == ControlFile::ClockVoltage implies i == plan.len() - 1 && i > 1 by {
        if i < plan.len() - 1 {
            assert(apply_rank(plan[i].file) < apply_rank(plan[plan.len() - 1].file));
        }
        if i <= 1 {
            if i < 1 {
                assert(apply_rank(plan[i].file) < apply_rank(plan[1].file));
            }
        }
    }
    assert forall|i: int|
        0 <= i < plan.len() && (#[trigger] plan[i]).file == ControlFile::PowerCap implies i
        == 1 by {
        if i < 1 {
            assert(apply_rank(plan[i].file) < apply_rank(plan[1].file));
        }
        if i > 1 {
            assert(apply_rank(plan[1].file) < apply_rank(plan[i].file));
        }
    }
}

/// Whether a payload is one of the two commands of the two-point core clock
/// override.
pub open spec fn is_pair_command(p: PayloadView) -> bool {
    p matches PayloadView::Command(c) && (c is SclkMin || c is SclkMax)
}

/// With the single clock offset present, the two-point pair is never
/// written, whether or not it is present too: the commands begin with the
/// single offset, and no payload of any step of the plan is a command of
/// the pair.
pub proof fn lemma_single_offset_replaces_pair(s: Settings, offset: i32)
    requires
        s.clock_offset_single == Some(offset),
    ensures
        clock_commands(s) == seq![Command::SclkOffset(offset)],
        override_commands(s)[0] == Command::SclkOffset(offset),
        forall|k: int|
            0 <= k < override_commands(s).len() ==> !((#[trigger] override_commands(s)[k])
                is SclkMin) && !(override_commands(s)[k] is SclkMax),
        forall|i: int, j: int|
            0 <= i < apply_plan_spec(s).len() && 0 <= j < step_payloads(apply_plan_spec(s)[i]).len()
                ==> !is_pair_command(#[trigger] step_payloads(apply_plan_spec(s)[i])[j]),
{
    lemma_plan_order(s);
    let plan = apply_plan_spec(s);
    let commands = override_commands(s);
    let clock = clock_commands(s);
    let memory = memory_commands(s);
    let voltage = voltage_commands(s);
    assert(commands == clock + memory + voltage + seq![Command::Commit]) by {
        reveal(override_commands);
    }
    assert forall|k: int| 0 <= k < commands.len() implies !((#[trigger] commands[k]) is SclkMin)
        && !(commands[k] is SclkMax) by {
        if k < clock.len() {
            assert(commands[k] == clock[k]);
        } else if k < clock.len() + memory.len() {
            assert(commands[k] == memory[k - clock.len()]);
        } else if k < clock.len() + memory.len() + voltage.len() {
            assert(commands[k] == voltage[k - clock.len() - memory.len()]);
        } else {
            assert(commands[k] == Command::Commit);
        }
    }
    assert forall|i: int, j: int|
        0 <= i < plan.len() && 0 <= j < step_payloads(plan[i]).len() implies !is_pair_command(
            #[trigger] step_payloads(plan[i])[j],
        ) by {
        if i < plan.len() - 1 {
            assert(plan[i] == value_steps(s)[i]);
            assert(is_single_value(value_steps(s)[i]));
        } else {
            assert(plan[i] == plan.last());
            assert(command_payloads(commands)[j] == PayloadView::Command(commands[j]));
        }
    }
}

/// Only the two zero-RPM files are optional: a step of the plan may be passed
/// over exactly when it is about one of them. Every other file must be
/// there.
pub proof fn lemma_only_zero_rpm_files_optional(s: Settings)
    ensures
        forall|i: int|
            0 <= i < apply_plan_spec(s).len() ==> (#[trigger] apply_plan_spec(s)[i]).optional
                == may_be_missing(apply_plan_spec(s)[i].file),
{
    lemma_plan_order(s);
    let plan = apply_plan_spec(s);
    assert forall|i: int| 0 <= i < plan.len() implies (#[trigger] plan[i]).optional
        == may_be_missing(plan[i].file) by {
        if i < plan.len() - 1 {
            assert(plan[i] == value_steps(s)[i]);
            assert(is_single_value(value_steps(s)[i]));
        } else {
            assert(plan[i] == plan.last());
        }
    }
}

/// Whether the settings hold nothing for the clock and voltage file.
pub open spec fn no_overrides(s: Settings) -> bool {
    &&& s.clock_offset_single is None
    &&& s.clock_offset_min is None
    &&& s.clock_offset_max is None
    &&& s.memory_clock_min is None
    &&& s.memory_clock_max is None
    &&& s.voltage_offset is None
}

/// The commit is the last thing that a plan writes, whatever the settings:
/// the last step is about the clock and voltage file, no other step is, and
/// the last payload of that step is the commit. Where the settings hold no
/// override at all, the commit is all that the step writes.
pub proof fn lemma_commit_comes_last(s: Settings)
    ensures
        apply_plan_spec(s).last() == override_step(s),
        step_payloads(override_step(s)) == command_payloads(override_commands(s)),
        forall|i: int|
            0 <= i < apply_plan_spec(s).len() - 1 ==> (#[trigger] apply_plan_spec(s)[i]).file
                != ControlFile::ClockVoltage,
        override_commands(s).len() >= 1,
        override_commands(s).last() == Command::Commit,
        command_payloads(override_commands(s)).last() == PayloadView::Command(Command::Commit),
        no_overrides(s) ==> override_commands(s) == seq![Command::Commit],
{
    lemma_plan_order(s);
    let plan = apply_plan_spec(s);
    let last = plan.len() - 1;
    assert(plan[last] == plan.last());
    assert forall|i: int| 0 <= i < plan.len() - 1 implies (#[trigger] plan[i]).file
        != ControlFile::ClockVoltage by {
        assert(apply_rank(plan[i].file) < apply_rank(plan[last].file));
    }
    assert(override_commands(s) == clock_commands(s) + memory_commands(s) + voltage_commands(s)
        + seq![Command::Commit]) by {
        reveal(override_commands);
    }
    if no_overrides(s) {
        assert(override_commands(s) =~= seq![Command::Commit]);
    }
}

/// The first turn of the run that applies `s` to the device at `paths`.
pub open spec fn apply_start(paths: Paths, s: Settings) -> TurnView {
    enter_step(fresh_session(paths, apply_plan_spec(s)), 0)
}

/// Whether a turn is over, or asks a request that is `good` from a session
/// that meets `inv`.
pub open spec fn turn_meets(
    inv: spec_fn(SessionView) -> bool,
    good: spec_fn(RequestView) -> bool,
    turn: TurnView,
) -> bool {
    match turn {
        TurnView::Done(_) => true,
        TurnView::Ask(s, request) => inv(s) && good(request),
    }
}

/// What holds of the first turn and is kept by every step holds of every
/// request of the run.
pub proof fn lemma_run_keeps(
    inv: spec_fn(SessionView) -> bool,
    good: spec_fn(RequestView) -> bool,
    turn: TurnView,
    replies: Seq<ReplyView>,
)
    requires
        turn_meets(inv, good, turn),
        forall|s: SessionView, reply: ReplyView|
            inv(s) ==> turn_meets(inv, good, #[trigger] session_step(s, reply)),
    ensures
        forall|j: int|
            0 <= j < run_requests(turn, replies).len() ==> good(
                #[trigger] run_requests(turn, replies)[j],
            ),
    decreases replies.len(),
{
    match turn {
        TurnView::Done(_) => {},
        TurnView::Ask(s, request) => {
            if replies.len() > 0 {
                let next = session_step(s, replies[0]);
                let rest = run_requests(next, replies.drop_first());
                lemma_run_keeps(inv, good, next, replies.drop_first());
                let all = run_requests(turn, replies);
                assert forall|j: int| 0 <= j < all.len() implies good(#[trigger] all[j]) by {
                    if j > 0 {
                        assert(all[j] == rest[j - 1]);
                    }
                }
            }
        },
    }
}

/// A session that runs a plan of writes and waits for nothing that only a
/// restore asks for.
pub open spec fn writes_only(plan: Seq<StepView>, s: SessionView) -> bool {
    &&& s.plan == plan
    &&& s.pending is Open || s.pending is Write || s.pending is Show || s.pending is Skip
}

/// A request that does not write a command of the two-point pair.
pub open spec fn writes_no_pair(request: RequestView) -> bool {
    match request {
        RequestView::Write { payload, .. } => !is_pair_command(payload),
        _ => true,
    }
}

/// A plan whose steps all write, and never a command of the two-point pair.
pub open spec fn writes_without_pair(plan: Seq<StepView>) -> bool {
    &&& forall|i: int| 0 <= i < plan.len() ==> (#[trigger] plan[i]).access is Write
    &&& forall|i: int, j: int|
        0 <= i < plan.len() && 0 <= j < step_payloads(plan[i]).len() ==> !is_pair_command(
            #[trigger] step_payloads(plan[i])[j],
        )
}

proof fn lemma_no_pair_step(plan: Seq<StepView>, session: SessionView, reply: ReplyView)
    requires
        writes_without_pair(plan),
        writes_only(plan, session),
    ensures
        match session_step(session, reply) {
            TurnView::Done(_) => true,
            TurnView::Ask(next, request) => writes_only(plan, next) && writes_no_pair(request),
        },
{
    if 0 <= session.step < plan.len() {
        let k = session.step;
        assert(plan[k].access is Write);
        let payloads = step_payloads(plan[k]);
        if k + 1 < plan.len() {
            assert(plan[k + 1].access is Write);
        }
        match session.pending {
            Pending::Open => {
                if reply == ReplyView::Done {
                    if 0 < payloads.len() {
                        assert(!is_pair_command(step_payloads(plan[k])[0]));
                    }
                }
            },
            Pending::Write(j) => {
                if reply == ReplyView::Done {
                    if 0 <= j + 1 < payloads.len() {
                        assert(!is_pair_command(step_payloads(plan[k])[j + 1]));
                    }
                }
            },
            _ => {},
        }
    }
}

proof fn lemma_apply_plan_writes_without_pair(s: Settings, offset: i32)
    requires
        s.clock_offset_single == Some(offset),
    ensures
        writes_without_pair(apply_plan_spec(s)),
{
    let plan = apply_plan_spec(s);
    lemma_plan_order(s);
    lemma_single_offset_replaces_pair(s, offset);
    assert forall|i: int| 0 <= i < plan.len() implies (#[trigger] plan[i]).access is Write by {
        if i < plan.len() - 1 {
            assert(plan[i] == value_steps(s)[i]);
            assert(is_single_value(value_steps(s)[i]));
        } else {
            assert(plan[i] == plan.last());
        }
    }
}

/// With the single clock offset present, no run of the plan writes a command
/// of the two-point pair, whatever the device answers.
pub proof fn lemma_pair_never_written(
    paths: Paths,
    s: Settings,
    offset: i32,
    replies: Seq<ReplyView>,
)
    requires
        s.clock_offset_single == Some(offset),
    ensures
        forall|j: int|
            0 <= j < run_requests(apply_start(paths, s), replies).len() ==> writes_no_pair(
                #[trigger] run_requests(apply_start(paths, s), replies)[j],
            ),
{
    let plan = apply_plan_spec(s);
    let inv = |v: SessionView| writes_only(plan, v);
    let good = |r: RequestView| writes_no_pair(r);
    lemma_apply_plan_writes_without_pair(s, offset);
    assert(turn_meets(inv, good, apply_start(paths, s))) by {
        lemma_plan_order(s);
        assert(plan[0].access is Write);
    }
    assert forall|v: SessionView, reply: ReplyView| inv(v) implies turn_meets(
        inv,
        good,
        #[trigger] session_step(v, reply),
    ) by {
        lemma_no_pair_step(plan, v, reply);
    }
    lemma_run_keeps(inv, good, apply_start(paths, s), replies);
}

/// The request that writes the power cap.
pub open spec fn cap_write(cap: u64) -> RequestView {
    RequestView::Write { file: ControlFile::PowerCap, payload: PayloadView::Number(cap) }
}

/// Whether the write of the power cap is among the first `j` requests.
pub open spec fn cap_written_before(run: Seq<RequestView>, cap: u64, j: int) -> bool {
    exists|i: int| 0 <= i < j && i < run.len() && #[trigger] run[i] == cap_write(cap)
}

/// Whether every request about the clock and voltage file comes after the
/// write of the power cap.
pub open spec fn cap_precedes_overrides(run: Seq<RequestView>, cap: u64) -> bool {
    forall|j: int|
        0 <= j < run.len() && request_file(#[trigger] run[j]) == ControlFile::ClockVoltage
            ==> cap_written_before(run, cap, j)
}

/// A plan that writes the performance level first and the power cap second.
pub open spec fn cap_comes_second(plan: Seq<StepView>, cap: u64) -> bool {
    &&& plan.len() >= 2
    &&& plan[0].file == ControlFile::PerformanceLevel
    &&& !plan[0].optional
    &&& plan[0].access is Write
    &&& step_payloads(plan[0]).len() == 1
    &&& plan[1] == write_step(ControlFile::PowerCap, false, seq![PayloadView::Number(cap)])
}

/// A session that stands before the write of the power cap.
pub open spec fn before_cap(plan: Seq<StepView>, s: SessionView) -> bool {
    &&& s.plan == plan
    &&& (s.step == 0 && (s.pending == Pending::Open || s.pending == Pending::Write(0))) || (s.step
        == 1 && s.pending == Pending::Open)
}

/// A turn that asks for the write of the power cap, or stands before it and
/// asks for nothing about the clock and voltage file, or is over.
pub open spec fn cap_pending(plan: Seq<StepView>, cap: u64, turn: TurnView) -> bool {
    match turn {
        TurnView::Done(_) => true,
        TurnView::Ask(s, request) => request == cap_write(cap) || (before_cap(plan, s)
            && request_file(request) != ControlFile::ClockVoltage),
    }
}

proof fn lemma_before_cap_step(
    plan: Seq<StepView>,
    cap: u64,
    session: SessionView,
    reply: ReplyView,
)
    requires
        cap_comes_second(plan, cap),
        before_cap(plan, session),
    ensures
        cap_pending(plan, cap, session_step(session, reply)),
{
    assert(step_payloads(plan[1]) == seq![PayloadView::Number(cap)]);
    assert(plan[1].access is Write);
    if session.step == 0 {
        if session.pending == Pending::Open {
            if reply == ReplyView::Done {
                assert(session_step(session, reply) == write_or_leave(session, 0));
            }
        } else {
            if reply == ReplyView::Done {
                assert(session_step(session, reply) == write_or_leave(session, 1));
                assert(write_or_leave(session, 1) == enter_step(session, 1));
            }
        }
    } else {
        if reply == ReplyView::Done {
            assert(session_step(session, reply) == write_or_leave(session, 0));
            assert(step_payloads(plan[1])[0] == PayloadView::Number(cap));
        }
    }
}

proof fn lemma_cap_precedes(
    plan: Seq<StepView>,
    cap: u64,
    turn: TurnView,
    replies: Seq<ReplyView>,
)
    requires
        cap_comes_second(plan, cap),
        cap_pending(plan, cap, turn),
    ensures
        cap_precedes_overrides(run_requests(turn, replies), cap),
    decreases replies.len(),
{
    let run = run_requests(turn, replies);
    match turn {
        TurnView::Done(_) => {},
        TurnView::Ask(s, request) => {
            if replies.len() > 0 {
                let next = session_step(s, replies[0]);
                let rest = run_requests(next, replies.drop_first());
                assert(run == seq![request] + rest);
                if request == cap_write(cap) {
                    assert forall|j: int|
                        0 <= j < run.len() && request_file(#[trigger] run[j])
                            == ControlFile::ClockVoltage implies cap_written_before(
                        run,
                        cap,
                        j,
                    ) by {
                        assert(run[0] == cap_write(cap));
                    }
                } else {
                    lemma_before_cap_step(plan, cap, s, replies[0]);
                    lemma_cap_precedes(plan, cap, next, replies.drop_first());
                    assert forall|j: int|
                        0 <= j < run.len() && request_file(#[trigger] run[j])
                            == ControlFile::ClockVoltage implies cap_written_before(
                        run,
                        cap,
                        j,
                    ) by {
                        assert(j > 0);
                        assert(run[j] == rest[j - 1]);
                        assert(cap_written_before(rest, cap, j - 1));
                        let i = choose|i: int|
                            0 <= i < j - 1 && i < rest.len() && #[trigger] rest[i] == cap_write(
                                cap,
                            );
                        assert(run[i + 1] == rest[i]);
                    }
                }
            }
        },
    }
}

/// With a power cap set, every run of the plan asks for the write of the
/// power cap before it asks for anything about the clock and voltage file,
/// whatever the device answers: a run that never gets to write the cap
/// never touches that file.
pub proof fn lemma_power_cap_written_first(
    paths: Paths,
    s: Settings,
    cap: u64,
    replies: Seq<ReplyView>,
)
    requires
        s.power_cap == Some(cap),
    ensures
        cap_precedes_overrides(run_requests(apply_start(paths, s), replies), cap),
{
    let plan = apply_plan_spec(s);
    lemma_plan_order(s);
    assert(cap_comes_second(plan, cap)) by {
        assert(step_payloads(plan[0]) == seq![PayloadView::Text(level_text(s))]);
    }
    assert(cap_pending(plan, cap, apply_start(paths, s)));
    lemma_cap_precedes(plan, cap, apply_start(paths, s), replies);
}

/// The request that writes the commit.
pub open spec fn commit_write() -> RequestView {
    RequestView::Write {
        file: ControlFile::ClockVoltage,
        payload: PayloadView::Command(Command::Commit),
    }
}

/// A plan whose steps all write something, and whose last step must write
/// to the clock and voltage file and ends with the commit.
pub open spec fn ends_with_commit(plan: Seq<StepView>) -> bool {
    &&& plan.len() >= 1
    &&& forall|i: int|
        0 <= i < plan.len() ==> (#[trigger] plan[i]).access is Write && 1 <= step_payloads(
            plan[i],
        ).len() <= 6
    &&& !plan.last().optional
    &&& plan.last().file == ControlFile::ClockVoltage
    &&& step_payloads(plan.last()).last() == PayloadView::Command(Command::Commit)
}

/// A session in the course of a plan of writes, with the request that it
/// waits to hear of.
pub open spec fn on_course(plan: Seq<StepView>, s: SessionView, request: RequestView) -> bool {
    &&& s.plan == plan
    &&& 0 <= s.step < plan.len()
    &&& match s.pending {
        Pending::Open => true,
        Pending::Write(j) => j < step_payloads(plan[s.step]).len() && request
            == (RequestView::Write {
            file: plan[s.step].file,
            payload: step_payloads(plan[s.step])[j as int],
        }),
        Pending::Skip => plan[s.step].optional,
        _ => false,
    }
}

proof fn lemma_on_course_step(
    plan: Seq<StepView>,
    session: SessionView,
    request: RequestView,
    reply: ReplyView,
)
    requires
        ends_with_commit(plan),
        on_course(plan, session, request),
    ensures
        match session_step(session, reply) {
            TurnView::Ask(next, asked) => on_course(plan, next, asked),
            TurnView::Done(Ok(_)) => request == commit_write(),
            TurnView::Done(Err(_)) => true,
        },
{
    let k = session.step;
    let last = plan.len() - 1;
    assert(plan[last] == plan.last());
    assert(plan[k].access is Write && 1 <= step_payloads(plan[k]).len() <= 6);
    if k + 1 < plan.len() {
        assert(plan[k + 1].access is Write && 1 <= step_payloads(plan[k + 1]).len() <= 6);
    }
    let payloads = step_payloads(plan[k]);
    match session.pending {
        Pending::Open => {
            if reply == ReplyView::Done {
                assert(session_step(session, reply) == write_or_leave(session, 0));
                let next = SessionView { pending: Pending::Write(0), ..session };
                let asked = RequestView::Write { file: plan[k].file, payload: payloads[0] };
                assert(write_or_leave(session, 0) == TurnView::Ask(next, asked));
                assert(on_course(plan, next, asked));
            } else {
                assert(session_step(session, reply) == on_unavailable(session, plan[k].file));
            }
        },
        Pending::Write(j) => {
            if reply == ReplyView::Done {
                assert(session_step(session, reply) == write_or_leave(session, j + 1));
                if j + 1 >= payloads.len() {
                    assert(write_or_leave(session, j + 1) == enter_step(session, k + 1));
                    if k + 1 >= plan.len() {
                        assert(payloads[j as int] == payloads.last());
                    }
                } else {
                    let next = SessionView { pending: Pending::Write((j + 1) as usize), ..session };
                    let asked = RequestView::Write {
                        file: plan[k].file,
                        payload: payloads[j + 1],
                    };
                    assert(write_or_leave(session, j + 1) == TurnView::Ask(next, asked));
                    assert(on_course(plan, next, asked));
                }
            }
        },
        Pending::Skip => {
            assert(session_step(session, reply) == enter_step(session, k + 1));
        },
        _ => {},
    }
}

/// A plan writes at most six commands: at most two for the core clock, two
/// for the memory clock, one for the voltage, and the commit.
pub proof fn lemma_override_count(s: Settings)
    ensures
        1 <= override_commands(s).len() <= 6,
{
    reveal(override_commands);
}

proof fn lemma_ok_run_ends_with_commit(
    plan: Seq<StepView>,
    session: SessionView,
    request: RequestView,
    replies: Seq<ReplyView>,
)
    requires
        ends_with_commit(plan),
        on_course(plan, session, request),
        run_result(TurnView::Ask(session, request), replies) == Some(Ok::<(), ApplyError>(())),
    ensures
        run_requests(TurnView::Ask(session, request), replies).len() >= 1,
        run_requests(TurnView::Ask(session, request), replies).last() == commit_write(),
    decreases replies.len(),
{
    let turn = TurnView::Ask(session, request);
    let run = run_requests(turn, replies);
    if replies.len() > 0 {
        let next = session_step(session, replies[0]);
        let rest = run_requests(next, replies.drop_first());
        assert(run == seq![request] + rest);
        lemma_on_course_step(plan, session, request, replies[0]);
        assert(run_result(turn, replies) == run_result(next, replies.drop_first()));
        match next {
            TurnView::Ask(after, asked) => {
                lemma_ok_run_ends_with_commit(plan, after, asked, replies.drop_first());
                assert(rest.len() >= 1);
                assert(run.last() == run[run.len() - 1]);
                assert(run[run.len() - 1] == rest[rest.len() - 1]);
            },
            TurnView::Done(result) => {
                assert(run_result(next, replies.drop_first()) == Some(result));
                assert(rest.len() == 0);
                assert(run.len() == 1);
                assert(run.last() == request);
            },
        }
    }
}

/// Whatever the settings, a run of the plan that ends well has the write of
/// the commit as its last request: nothing is written after the commit, and
/// no run ends well without it. This holds in particular of settings that
/// hold no clock or voltage override at all.
pub proof fn lemma_commit_is_final_write(paths: Paths, s: Settings, replies: Seq<ReplyView>)
    requires
        run_result(apply_start(paths, s), replies) == Some(Ok::<(), ApplyError>(())),
    ensures
        run_requests(apply_start(paths, s), replies).len() >= 1,
        run_requests(apply_start(paths, s), replies).last() == commit_write(),
{
    let plan = apply_plan_spec(s);
    lemma_plan_order(s);
    lemma_commit_comes_last(s);
    assert(ends_with_commit(plan)) by {
        lemma_override_count(s);
        assert forall|i: int| 0 <= i < plan.len() implies (#[trigger] plan[i]).access is Write
            && 1 <= step_payloads(plan[i]).len() <= 6 by {
            if i < plan.len() - 1 {
                assert(plan[i] == value_steps(s)[i]);
                assert(is_single_value(value_steps(s)[i]));
            } else {
                assert(plan[i] == plan.last());
            }
        }
    }
    assert(plan[0].access is Write);
    match apply_start(paths, s) {
        TurnView::Ask(session, request) => {
            lemma_ok_run_ends_with_commit(plan, session, request, replies);
        },
        TurnView::Done(_) => {},
    }
}

/// The performance level is written first, whatever the settings: every run
/// begins by opening the performance level file, and once it is open the
/// level is written, `manual` where the settings hold none.
pub proof fn lemma_level_written_first(paths: Paths, s: Settings, replies: Seq<ReplyView>)
    ensures
        run_requests(apply_start(paths, s), replies).len() >= 1,
        run_requests(apply_start(paths, s), replies)[0] == (RequestView::Open {
            file: ControlFile::PerformanceLevel,
            path: control_file_path_spec(paths, ControlFile::PerformanceLevel),
            write: true,
        }),
        replies.len() >= 1 && replies[0] == ReplyView::Done ==> run_requests(
            apply_start(paths, s),
            replies,
        ).len() >= 2 && run_requests(apply_start(paths, s), replies)[1] == (RequestView::Write {
            file: ControlFile::PerformanceLevel,
            payload: PayloadView::Text(level_text(s)),
        }),
{
    let plan = apply_plan_spec(s);
    lemma_plan_order(s);
    let start = fresh_session(paths, plan);
    let first = SessionView { step: 0, pending: Pending::Open, ..start };
    let opening = RequestView::Open {
        file: ControlFile::PerformanceLevel,
        path: control_file_path_spec(paths, ControlFile::PerformanceLevel),
        write: true,
    };
    assert(apply_start(paths, s) == TurnView::Ask(first, opening));
    if replies.len() >= 1 && replies[0] == ReplyView::Done {
        let writing = RequestView::Write {
            file: ControlFile::PerformanceLevel,
            payload: PayloadView::Text(level_text(s)),
        };
        let second = SessionView { pending: Pending::Write(0), ..first };
        assert(session_step(first, replies[0]) == write_or_leave(first, 0));
        assert(write_or_leave(first, 0) == TurnView::Ask(second, writing));
        let rest = run_requests(TurnView::Ask(second, writing), replies.drop_first());
        assert(rest[0] == writing);
        assert(run_requests(apply_start(paths, s), replies) == seq![opening] + rest);
    }
}

/// A failure ends the run where it stands: when the reply to a request ends
/// the run, nothing is asked after that request, whatever further replies
/// there are, and the run's result is that end.
pub proof fn lemma_run_stops_at_its_end(
    session: SessionView,
    request: RequestView,
    replies: Seq<ReplyView>,
    result: Result<(), ApplyError>,
)
    requires
        replies.len() >= 1,
        session_step(session, replies[0]) == TurnView::Done(result),
    ensures
        run_requests(TurnView::Ask(session, request), replies) == seq![request],
        run_result(TurnView::Ask(session, request), replies) == Some(result),
{
    let over = TurnView::Done(result);
    let rest = run_requests(over, replies.drop_first());
    assert(seq![request] + rest =~= seq![request]);
    assert(run_result(over, replies.drop_first()) == Some(result));
    assert(run_result(TurnView::Ask(session, request), replies) == run_result(
        session_step(session, replies[0]),
        replies.drop_first(),
    ));
}

/// A restore writes what it read, and nothing of its own: when the line
/// `line` comes back from the file that is read, the session opens the
/// step's own file for writing, and once that is open it writes `line` to
/// it.
pub proof fn lemma_restore_writes_what_was_read(
    session: SessionView,
    source: ControlFile,
    line: Seq<u8>,
)
    requires
        0 <= session.step < session.plan.len(),
        session.plan[session.step].access == AccessView::Restore(source),
        session.pending == Pending::ReadLine,
    ensures
        session_step(session, ReplyView::Line(line)) == TurnView::Ask(
            SessionView { pending: Pending::OpenTarget, line, ..session },
            RequestView::Open {
                file: session.plan[session.step].file,
                path: control_file_path_spec(session.paths, session.plan[session.step].file),
                write: true,
            },
        ),
        session_step(
            SessionView { pending: Pending::OpenTarget, line, ..session },
            ReplyView::Done,
        ) == TurnView::Ask(
            SessionView { pending: Pending::WriteLine, line, ..session },
            RequestView::Write {
                file: session.plan[session.step].file,
                payload: PayloadView::Text(line),
            },
        ),
{
}

} // verus!
